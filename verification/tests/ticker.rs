use kyuri::manager::Manager;
use kyuri::sink::Buffer;
use kyuri::ticker::begin;
use kyuri::ticker::end;
use kyuri::ticker::Cycle;
use kyuri::ticker::Wake;

const SECOND: u64 = 1_000_000_000;

#[test]
fn ticker() {
    let mut manager = Manager::new(SECOND, Buffer::new(false, 0));
    manager.set_ticker(true);
    let bar = manager.create_bar(
        100,
        "Downloading",
        "{msg}\n[{elapsed}] {bytes}/{total_bytes} ({bytes_per_sec}, {eta})",
        true,
        0,
    );

    // Two seconds of ticking: two waits that time out.
    assert_eq!(begin(Some(&manager)), Cycle::Wait(SECOND));
    assert!(end(&mut manager, Wake::TimedOut, SECOND));
    assert_eq!(begin(Some(&manager)), Cycle::Wait(SECOND));
    assert!(end(&mut manager, Wake::TimedOut, 2 * SECOND));
    bar.release(Some(&mut manager), 2 * SECOND);
    assert_eq!(
        String::from_utf8(manager.out().bytes.clone()).unwrap(),
        "Downloading\n[0:00:00] 0 B/100 B (0 B/s, Unknown)\n"
    );
}

#[test]
fn a_tick_draws_what_changed() {
    let mut manager = Manager::new(SECOND, Buffer::new(false, 0));
    manager.set_ticker(true);
    let bar = manager.create_bar(100, "job", "{pos}", true, 0);
    bar.set_pos(Some(&mut manager), 5, SECOND / 2);
    assert_eq!(manager.out().bytes, b"0\n");
    assert!(end(&mut manager, Wake::TimedOut, SECOND));
    assert_eq!(manager.out().bytes, b"0\n5\n");
    assert!(end(&mut manager, Wake::TimedOut, 2 * SECOND));
    assert_eq!(manager.out().bytes, b"0\n5\n");
}

#[test]
fn a_cancelled_wait_ends_the_loop_without_a_frame() {
    let mut manager = Manager::new(SECOND, Buffer::new(false, 0));
    let bar = manager.create_bar(100, "job", "{pos}", true, 0);
    bar.set_pos(Some(&mut manager), 5, 1);
    assert!(!end(&mut manager, Wake::Cancelled, SECOND));
    assert_eq!(manager.out().bytes, b"0\n");
}

#[test]
fn the_loop_ends_when_the_manager_is_gone() {
    assert_eq!(begin::<Buffer>(None), Cycle::Exit);
}
