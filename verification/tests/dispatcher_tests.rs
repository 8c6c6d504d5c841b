use pixelflut::Dispatcher;
use pixelflut::SlabPoll;
use pixelflut::StreamWorker;

#[test]
fn shrinking_keeps_the_first_handles() {
    let mut d: Dispatcher<u32> = Dispatcher::new();
    for h in 0..5 {
        d.add_worker(h);
    }
    let missing = d.apply_stream_count(3);
    assert_eq!(missing, 0);
    assert_eq!(d.worker_count(), 3);
    assert_eq!(*d.worker(0), 0);
    assert_eq!(*d.worker(1), 1);
    assert_eq!(*d.worker(2), 2);
}

#[test]
fn growing_reports_the_missing_workers() {
    let mut d: Dispatcher<u32> = Dispatcher::new();
    d.add_worker(7);
    let missing = d.apply_stream_count(4);
    assert_eq!(missing, 3);
    assert_eq!(d.worker_count(), 1);
    assert_eq!(*d.worker(0), 7);
}

#[test]
fn shrinking_to_zero_drops_every_worker() {
    let mut d: Dispatcher<u32> = Dispatcher::new();
    for h in 0..4 {
        d.add_worker(h);
    }
    assert_eq!(d.apply_stream_count(0), 0);
    assert_eq!(d.worker_count(), 0);
}

#[test]
fn worker_writes_its_slab_and_loops() {
    let mut w = StreamWorker::new(b"PX 0 0 ff0000\n".to_vec());
    assert!(!w.at_end());
    assert_eq!(w.pending_bytes(), b"PX 0 0 ff0000\n".to_vec());
    w.advance(5);
    assert_eq!(w.pending_bytes(), b"0 ff0000\n".to_vec());
    w.advance(w.remaining());
    assert!(w.at_end());
    // Nothing new on the channel: the same slab restarts.
    let exit = w.on_poll(SlabPoll::Pending);
    assert!(!exit);
    assert_eq!(w.pending_bytes(), b"PX 0 0 ff0000\n".to_vec());
}

#[test]
fn worker_adopts_a_delivered_slab() {
    let mut w = StreamWorker::new(b"old".to_vec());
    w.advance(3);
    let exit = w.on_poll(SlabPoll::Delivered(b"new slab".to_vec()));
    assert!(!exit);
    assert_eq!(w.pending_bytes(), b"new slab".to_vec());
}

#[test]
fn worker_exits_when_the_channel_closes() {
    let mut w = StreamWorker::new(b"bytes".to_vec());
    w.advance(5);
    let exit = w.on_poll(SlabPoll::Closed);
    assert!(exit);
}
