use krnl::engine::alive_result;
use krnl::engine::capabilities_to_features;
use krnl::engine::features_to_capabilities;
use krnl::engine::plan_queues;
use krnl::engine::plan_workers;
use krnl::engine::select_device;
use krnl::engine::wait_result;
use krnl::engine::wait_step;
use krnl::engine::Capability;
use krnl::engine::DeviceFeatures;
use krnl::engine::DeviceId;
use krnl::engine::DeviceIndexOutOfRange;
use krnl::engine::DeviceOptions;
use krnl::engine::DeviceReport;
use krnl::engine::Engine;
use krnl::engine::EngineError;
use krnl::engine::QueueFamily;
use krnl::engine::WaitStep;
use krnl::engine::WorkerSpec;
use krnl::error::Error;
use krnl::features::Features;
use krnl::slab::MemoryType;

fn family(compute: bool, graphics: bool, transfer: bool) -> QueueFamily {
    QueueFamily { compute, graphics, transfer }
}

fn all_features() -> DeviceFeatures {
    DeviceFeatures {
        vulkan_memory_model: true,
        storage_buffer8_bit_access: true,
        storage_buffer16_bit_access: true,
        shader_int8: true,
        shader_int16: true,
        shader_int64: true,
        shader_float16: true,
        shader_float64: true,
    }
}

fn report(families: Vec<QueueFamily>) -> DeviceReport {
    DeviceReport {
        devices: 2,
        handle: 0xabcd,
        supported: DeviceFeatures { shader_float64: false, ..all_features() },
        families,
        memory_types: vec![MemoryType {
            id: 0,
            heap_size: 1 << 32,
            host_visible: false,
            device_local: true,
        }],
        max_groups: 65535,
        max_threads: 1024,
        default_threads: 64,
        debug_printf: false,
    }
}

#[test]
fn compute_families_prefer_those_without_graphics() {
    let f = vec![
        family(true, true, true),
        family(false, false, true),
        family(true, false, true),
        family(true, true, false),
        family(true, false, false),
    ];
    let plan = plan_queues(&f).unwrap();
    assert_eq!(plan.compute_families, vec![2, 4, 0, 3]);
    assert_eq!(plan.transfer_family, Some(1));
}

#[test]
fn without_a_transfer_family_the_first_compute_queue_serves_both() {
    let f = vec![family(true, true, true), family(true, false, true)];
    let plan = plan_queues(&f).unwrap();
    assert_eq!(plan.compute_families, vec![1]);
    assert_eq!(plan.transfer_family, None);
    let workers = plan_workers(&plan);
    let w = WorkerSpec { queue: 0, compute: true, staging: true };
    assert_eq!(workers, vec![w, w]);
}

#[test]
fn no_compute_family_gives_no_plan() {
    assert!(plan_queues(&vec![family(false, true, true), family(false, false, true)]).is_none());
    assert!(plan_queues(&vec![]).is_none());
}

#[test]
fn two_workers_for_each_queue() {
    let f = vec![family(true, false, false), family(false, false, true), family(true, true, false)];
    let plan = plan_queues(&f).unwrap();
    let workers = plan_workers(&plan);
    let c0 = WorkerSpec { queue: 0, compute: true, staging: false };
    let c1 = WorkerSpec { queue: 1, compute: true, staging: false };
    let t = WorkerSpec { queue: 2, compute: false, staging: true };
    assert_eq!(workers, vec![c0, c0, c1, c1, t, t]);
}

#[test]
fn negotiation_enables_what_is_asked_and_supported() {
    let optimal = Features {
        shader_int8: true,
        shader_int16: false,
        shader_int64: true,
        shader_float16: false,
        shader_float64: true,
    };
    let supported = DeviceFeatures { shader_int64: false, ..all_features() };
    let got = DeviceFeatures::negotiate(&supported, &optimal);
    assert!(got.vulkan_memory_model);
    assert!(got.shader_int8);
    assert!(!got.shader_int16);
    assert!(!got.shader_int64);
    assert!(!got.shader_float16);
    assert!(got.shader_float64);
    assert_eq!(
        got.features(),
        Features {
            shader_int8: true,
            shader_int16: false,
            shader_int64: false,
            shader_float16: false,
            shader_float64: true
        }
    );
}

#[test]
fn capabilities_and_features_convert_both_ways() {
    let caps = [Capability::Int64, Capability::VulkanMemoryModel, Capability::Int8, Capability::Int64];
    let f = capabilities_to_features(&caps);
    assert_eq!(
        f,
        DeviceFeatures {
            vulkan_memory_model: true,
            shader_int8: true,
            shader_int64: true,
            ..DeviceFeatures::none()
        }
    );
    assert_eq!(
        features_to_capabilities(&f),
        vec![Capability::VulkanMemoryModel, Capability::Int8, Capability::Int64]
    );
    assert_eq!(capabilities_to_features(&features_to_capabilities(&all_features())), all_features());
    assert_eq!(features_to_capabilities(&all_features()).len(), 8);
    assert_eq!(capabilities_to_features(&[]), DeviceFeatures::none());
}

#[test]
fn device_index_out_of_range() {
    assert_eq!(select_device(1, 2), Ok(1));
    assert_eq!(select_device(2, 2), Err(DeviceIndexOutOfRange { index: 2, devices: 2 }));
}

#[test]
fn wait_is_over_when_every_worker_has_caught_up() {
    assert_eq!(wait_step(&[3, 0, 7], &[3, 0, 9], false), WaitStep::Done);
    assert_eq!(wait_step(&[3, 0, 7], &[3, 0, 6], false), WaitStep::Sleep);
    assert_eq!(wait_step(&[3, 0, 7], &[3, 0, 9], true), WaitStep::Lost);
    assert_eq!(wait_step(&[], &[], false), WaitStep::Done);
    let id = DeviceId { index: 1, handle: 5 };
    assert_eq!(wait_result(WaitStep::Done, id), Some(Ok(())));
    assert_eq!(wait_result(WaitStep::Sleep, id), None);
    assert_eq!(wait_result(WaitStep::Lost, id), Some(Err(Error::DeviceLost { index: 1, handle: 5 })));
}

#[test]
fn engine_is_made_from_what_the_device_reports() {
    let options = DeviceOptions {
        index: 1,
        optimal_features: Features {
            shader_int8: true,
            shader_int16: true,
            shader_int64: true,
            shader_float16: true,
            shader_float64: true,
        },
    };
    let engine =
        Engine::new(options, &report(vec![family(true, true, true), family(false, false, true)]))
            .unwrap();
    assert_eq!(engine.info.id, DeviceId { index: 1, handle: 0xabcd });
    assert_eq!(engine.handle(), 0xabcd);
    assert_eq!(engine.info().compute_queues, 1);
    assert_eq!(engine.info.transfer_queues, 1);
    assert!(engine.info.features.shader_int8);
    assert!(!engine.info.features.shader_float64);
    assert_eq!(engine.compute_families, vec![0]);
    assert_eq!(engine.transfer_family, Some(1));
    assert_eq!(engine.workers.len(), 4);
    assert_eq!(engine.worker_states.len(), 4);
    assert_eq!(engine.allocator.device.chunks.len(), 16);
    assert!(!engine.has_exited());
    assert_eq!(engine.pending(), vec![0, 0, 0, 0]);
}

#[test]
fn engine_refuses_a_missing_device_and_a_device_without_compute() {
    let options = DeviceOptions { index: 2, optimal_features: Features::empty() };
    assert_eq!(
        Engine::new(options, &report(vec![family(true, true, true)])).err(),
        Some(EngineError::IndexOutOfRange(DeviceIndexOutOfRange { index: 2, devices: 2 }))
    );
    let options = DeviceOptions { index: 0, optimal_features: Features::empty() };
    assert_eq!(
        Engine::new(options, &report(vec![family(false, true, true)])).err(),
        Some(EngineError::NoCompute { index: 0 })
    );
}

#[test]
fn engine_wait_follows_the_workers() {
    let options = DeviceOptions { index: 0, optimal_features: Features::empty() };
    let engine = Engine::new(options, &report(vec![family(true, false, true)])).unwrap();
    let first = engine.worker_states[0].next();
    let second = engine.worker_states[0].next();
    assert_eq!(first.pending, 1);
    assert_eq!(second.pending, 2);
    let snapshot = engine.pending();
    assert_eq!(snapshot, vec![2, 0]);
    assert_eq!(engine.wait_poll(&snapshot), None);
    engine.worker_states[0].finish();
    assert!(first.ready());
    assert!(!second.ready());
    assert_eq!(engine.wait_poll(&snapshot), None);
    engine.worker_states[0].finish();
    assert!(second.ready());
    assert_eq!(engine.wait_poll(&snapshot), Some(Ok(())));
}

#[test]
fn device_loss_ends_a_wait_with_an_error() {
    let options = DeviceOptions { index: 0, optimal_features: Features::empty() };
    let engine = Engine::new(options, &report(vec![family(true, false, true)])).unwrap();
    let _queued = engine.worker_states[1].next();
    let snapshot = engine.pending();
    assert_eq!(engine.wait_poll(&snapshot), None);
    assert_eq!(engine.check_alive(), Ok(()));
    engine.exited.store(true, std::sync::atomic::Ordering::SeqCst);
    assert_eq!(
        engine.wait_poll(&snapshot),
        Some(Err(Error::DeviceLost { index: 0, handle: 0xabcd }))
    );
    assert_eq!(engine.check_alive(), Err(Error::DeviceLost { index: 0, handle: 0xabcd }));
    let id = DeviceId { index: 3, handle: 4 };
    assert_eq!(alive_result(false, id), Ok(()));
    assert_eq!(alive_result(true, id), Err(Error::DeviceLost { index: 3, handle: 4 }));
}
