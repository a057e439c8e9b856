use krnl::buffer::download_steps;
use krnl::buffer::route;
use krnl::buffer::transfer_stages;
use krnl::buffer::upload_steps;
use krnl::buffer::UploadAction;
use krnl::buffer::DownloadAction;
use krnl::buffer::Route;
use krnl::buffer::Stage;
use krnl::buffer::HOST_STAGE;

#[test]
fn zero_length_transfer_enqueues_nothing() {
    assert_eq!(transfer_stages(0), vec![]);
    assert!(matches!(route(false, 0), Route::Nothing));
    assert!(matches!(route(true, 0), Route::Nothing));
    assert_eq!(download_steps(0), vec![]);
}

#[test]
fn transfer_goes_in_stages_of_the_staging_buffer() {
    assert_eq!(transfer_stages(1), vec![Stage { offset: 0, len: 1 }]);
    assert_eq!(transfer_stages(HOST_STAGE), vec![Stage { offset: 0, len: HOST_STAGE }]);
    assert_eq!(
        transfer_stages(2 * HOST_STAGE + 5),
        vec![
            Stage { offset: 0, len: HOST_STAGE },
            Stage { offset: HOST_STAGE, len: HOST_STAGE },
            Stage { offset: 2 * HOST_STAGE, len: 5 },
        ]
    );
}

#[test]
fn stages_tile_the_bytes() {
    for len in [1u64, 100, HOST_STAGE - 1, HOST_STAGE + 1, 5 * HOST_STAGE] {
        let stages = transfer_stages(len);
        let mut at = 0;
        for s in stages.iter() {
            assert_eq!(s.offset, at);
            assert!(s.len > 0 && s.len <= HOST_STAGE);
            at += s.len;
        }
        assert_eq!(at, len);
    }
}

#[test]
fn bytes_that_go_up_in_stages_come_down_the_same() {
    let data: Vec<u8> = (0..1000u32).map(|x| (x % 251) as u8).collect();
    let mut device = vec![0u8; data.len()];
    for s in transfer_stages(data.len() as u64) {
        let (a, b) = (s.offset as usize, (s.offset + s.len) as usize);
        device[a..b].copy_from_slice(&data[a..b]);
    }
    let mut back = vec![0u8; data.len()];
    for s in transfer_stages(device.len() as u64) {
        let (a, b) = (s.offset as usize, (s.offset + s.len) as usize);
        back[a..b].copy_from_slice(&device[a..b]);
    }
    assert_eq!(back, data);
}

#[test]
fn mapped_route_for_host_visible_memory() {
    assert!(matches!(route(true, 10), Route::Mapped));
    match route(false, HOST_STAGE + 1) {
        Route::Staged(s) => assert_eq!(s.len(), 2),
        other => panic!("{other:?}"),
    }
}

#[test]
fn download_copies_the_previous_stage_while_the_next_is_queued() {
    assert_eq!(download_steps(1), vec![
            DownloadAction::Enqueue(0),
            DownloadAction::AwaitFuture,
            DownloadAction::Submit(0),
            DownloadAction::CopyOut(0),
        ]);
    assert_eq!(
        download_steps(3),
        vec![
            DownloadAction::Enqueue(0),
            DownloadAction::AwaitFuture,
            DownloadAction::Submit(0),
            DownloadAction::Enqueue(1),
            DownloadAction::Submit(1),
            DownloadAction::CopyOut(0),
            DownloadAction::Enqueue(2),
            DownloadAction::Submit(2),
            DownloadAction::CopyOut(1),
            DownloadAction::CopyOut(2),
        ]
    );
}

#[test]
fn download_keeps_at_most_two_stages_in_flight() {
    let steps = download_steps(6);
    let mut in_flight = 0i32;
    let mut copied = Vec::new();
    for s in steps {
        match s {
            DownloadAction::Enqueue(_) => in_flight += 1,
            DownloadAction::CopyOut(k) => {
                in_flight -= 1;
                copied.push(k);
            }
            _ => {}
        }
        assert!(in_flight <= 2);
    }
    assert_eq!(in_flight, 0);
    assert_eq!(copied, vec![0, 1, 2, 3, 4, 5]);
}

#[test]
fn upload_takes_one_transfer_after_the_other() {
    assert_eq!(upload_steps(0), vec![]);
    assert_eq!(
        upload_steps(2),
        vec![
            UploadAction::Enqueue(0),
            UploadAction::Fill(0),
            UploadAction::Submit(0),
            UploadAction::TakeFuture(0),
            UploadAction::Enqueue(1),
            UploadAction::Fill(1),
            UploadAction::Submit(1),
            UploadAction::TakeFuture(1),
        ]
    );
}
