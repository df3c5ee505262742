use softbuffer_cg::buffer::{Buffer, Surface};
use softbuffer_cg::cg::{BufferImpl, CGImpl, MainThreadWindow, RootLayer, WindowHandle};
use softbuffer_cg::layer::{KeyPath, LayerCommand};
use softbuffer_cg::ring::{PendingBuffers, BUFFER_COUNT};
use softbuffer_cg::types::{AlphaMode, LockError, Rect};
use softbuffer_cg::wait::{BackBufferWait, WaitEvent};

type Window = CGImpl<(), &'static str, u32>;

/// A surface of the given size with rows padded to 64 bytes.
fn surface(handle: u32, width: u32, height: u32) -> Surface<u32> {
    Surface {
        handle,
        width: width as usize,
        height: height as usize,
        bytes_per_row: (width as usize * 4 + 63) / 64 * 64,
    }
}

fn fill(pending: &mut PendingBuffers<u32>, first: u32, width: u32, height: u32) {
    let mut handle = first;
    while pending.request(false).is_some() {
        pending.accept(surface(handle, width, height));
        handle += 1;
    }
    assert_eq!(handle - first, 3);
}

fn window(width: u32, height: u32) -> Window {
    let root: RootLayer<&'static str> = MainThreadWindow::new("window", true)
        .unwrap()
        .root_layer(Ok(WindowHandle::AppKit))
        .unwrap();
    let mut pending = PendingBuffers::new(width, height);
    fill(&mut pending, 1, width, height);
    CGImpl::new(root, pending)
}

/// A wait that was over at once.
fn no_wait() -> BackBufferWait {
    let mut wait = BackBufferWait::new();
    wait.step(WaitEvent::InUse(false));
    wait
}

fn start(window: &mut Window) -> BufferImpl<'_, u32> {
    window.next_buffer(AlphaMode::Opaque, no_wait(), 0).unwrap()
}

#[test]
fn three_buffers_are_made() {
    assert_eq!(BUFFER_COUNT, 3);
    let mut pending = PendingBuffers::new(8, 4);
    fill(&mut pending, 10, 8, 4);
    assert!(pending.request(true).is_none());
}

#[test]
fn window_is_kept() {
    assert_eq!(*window(8, 4).window(), "window");
}

#[test]
fn ages_count_frames() {
    let mut window = window(8, 4);
    let mut seen = Vec::new();
    for _ in 0..7 {
        let frame = start(&mut window);
        seen.push((*frame.surface(), frame.age()));
        frame.present_with_damage(&[], 0).unwrap();
    }
    assert_eq!(seen, vec![(3, 0), (2, 0), (1, 0), (3, 3), (2, 3), (1, 3), (3, 3)]);
}

#[test]
fn ages_stay_small_over_many_frames() {
    let mut window = window(8, 4);
    for _ in 0..1000 {
        let frame = start(&mut window);
        assert!(frame.age() <= 3);
        frame.present_with_damage(&[], 0).unwrap();
    }
}

#[test]
fn surfaces_take_turns() {
    let mut window = window(8, 4);
    let mut drawn = Vec::new();
    for _ in 0..6 {
        let back = window.back_buffer().surface.handle;
        let frame = start(&mut window);
        assert_eq!(*frame.surface(), back);
        drawn.push(*frame.surface());
        frame.present_with_damage(&[], 0).unwrap();
    }
    assert_eq!(drawn, vec![3, 2, 1, 3, 2, 1]);
}

#[test]
fn presenting_shows_the_frame_without_animation() {
    let mut window = window(8, 4);
    let frame = start(&mut window);
    let damage = [Rect { x: 1, y: 1, width: 2, height: 2 }];
    let commands = frame.present_with_damage(&damage, 0).unwrap();
    assert_eq!(
        commands,
        vec![
            LayerCommand::BeginTransaction,
            LayerCommand::SetDisableActions(true),
            LayerCommand::SetContents(&3),
            LayerCommand::CommitTransaction,
        ]
    );
}

#[test]
fn front_buffer_is_the_presented_one() {
    let mut window = window(8, 4);
    let frame = start(&mut window);
    frame.present_with_damage(&[], 0).unwrap();
    let frame = start(&mut window);
    assert_eq!(frame.buffers.front().surface.handle, 3);
    assert_eq!(frame.buffers.front().age, 1);
    assert_eq!(frame.buffers.front().locks, 0);
    assert_eq!(frame.buffers.back().surface.handle, 2);
    assert_eq!(frame.buffers.back().locks, 1);
}

#[test]
fn abandoned_frame_changes_nothing() {
    let mut window = window(8, 4);
    start(&mut window).present_with_damage(&[], 0).unwrap();
    assert_eq!(start(&mut window).drop(0), Ok(()));
    let frame = start(&mut window);
    assert_eq!(*frame.surface(), 2);
    assert_eq!(frame.age(), 0);
    assert_eq!(frame.buffers.front().age, 1);
}

#[test]
fn failed_lock_starts_no_frame() {
    let mut window = window(8, 4);
    let error = window.next_buffer(AlphaMode::Opaque, no_wait(), -536870207).err();
    assert_eq!(error, Some(LockError::Lock(-536870207)));
    assert_eq!(window.back_buffer().locks, 0);
    assert_eq!(start(&mut window).buffers.back().locks, 1);
}

#[test]
fn failed_unlock_is_reported_on_present() {
    let mut window = window(8, 4);
    let frame = start(&mut window);
    assert_eq!(frame.present_with_damage(&[], 7), Err(LockError::Unlock(7)));
    assert_eq!(window.back_buffer().surface.handle, 3);
}

#[test]
fn failed_unlock_is_reported_on_drop() {
    let mut window = window(8, 4);
    assert_eq!(start(&mut window).drop(9), Err(LockError::Unlock(9)));
}

#[test]
fn layout_is_that_of_the_surface() {
    let mut window = window(10, 5);
    let frame = start(&mut window);
    assert_eq!(frame.width(), 10);
    assert_eq!(frame.height(), 5);
    assert_eq!(frame.byte_stride(), 64);
    assert_eq!(frame.pixels_len(), 80);
}

#[test]
fn last_pixel_is_in_bounds() {
    let mut window = window(10, 5);
    let frame = start(&mut window);
    let stride = frame.byte_stride() as usize / 4;
    assert_eq!(frame.pixels_len(), stride * 5);
    assert_eq!(4 * stride + (stride - 1), frame.pixels_len() - 1);
}

#[test]
fn locks_of_a_buffer_are_counted() {
    let mut buffer = Buffer::new(surface(1, 8, 4));
    assert_eq!((buffer.age, buffer.locks), (0, 0));
    assert_eq!(buffer.lock(3), Err(LockError::Lock(3)));
    assert_eq!(buffer.locks, 0);
    assert_eq!(buffer.lock(0), Ok(()));
    assert_eq!(buffer.locks, 1);
    assert_eq!(buffer.data_len(), 64);
    assert_eq!(buffer.unlock(-4), Err(LockError::Unlock(-4)));
    assert_eq!(buffer.locks, 1);
    assert_eq!(buffer.lock(0), Ok(()));
    assert_eq!(buffer.unlock(0), Ok(()));
    assert_eq!(buffer.locks, 1);
    assert_eq!(buffer.unlock(0), Ok(()));
    assert_eq!(buffer, Buffer::new(surface(1, 8, 4)));
}

#[test]
fn same_size_keeps_buffers() {
    let mut window = window(8, 4);
    start(&mut window).present_with_damage(&[], 0).unwrap();
    let configuration = window.configure(8, 4, AlphaMode::Premultiplied).unwrap();
    assert!(!configuration.opaque);
    assert!(configuration.recreate.is_none());
    assert_eq!(window.back_buffer().surface.handle, 2);
}

#[test]
fn other_width_or_height_makes_buffers() {
    let window = window(8, 4);
    assert!(window.configure(9, 4, AlphaMode::Opaque).unwrap().recreate.is_some());
    assert!(window.configure(8, 5, AlphaMode::Opaque).unwrap().recreate.is_some());
}

#[test]
fn new_buffers_replace_the_old() {
    let mut window = window(8, 4);
    start(&mut window).present_with_damage(&[], 0).unwrap();
    let configuration = window.configure(16, 2, AlphaMode::Opaque).unwrap();
    assert!(configuration.opaque);
    let mut pending = configuration.recreate.unwrap();
    fill(&mut pending, 11, 16, 2);
    window.replace_buffers(pending);
    assert!(window.configure(16, 2, AlphaMode::Opaque).unwrap().recreate.is_none());
    assert!(window.configure(8, 4, AlphaMode::Opaque).unwrap().recreate.is_some());
    let frame = start(&mut window);
    assert_eq!(*frame.surface(), 13);
    assert_eq!(frame.age(), 0);
    assert_eq!((frame.width(), frame.height()), (16, 2));
}

#[test]
fn alpha_modes_that_surfaces_can_show() {
    let window = window(8, 4);
    assert!(window.supports_alpha_mode(AlphaMode::Opaque));
    assert!(window.supports_alpha_mode(AlphaMode::Premultiplied));
    assert!(!window.supports_alpha_mode(AlphaMode::Ignored));
    assert!(!window.supports_alpha_mode(AlphaMode::Postmultiplied));
}

#[test]
fn drop_removes_what_setup_added() {
    let commands = window(8, 4).drop();
    assert_eq!(
        commands,
        vec![
            LayerCommand::RemoveObserver(KeyPath::ContentsScale),
            LayerCommand::RemoveObserver(KeyPath::Bounds),
            LayerCommand::RemoveFromSuperlayer,
        ]
    );
    let root = MainThreadWindow::new("window", true)
        .unwrap()
        .root_layer(Ok(WindowHandle::AppKit))
        .unwrap();
    for command in root.set_up::<u32>() {
        match command {
            LayerCommand::AddObserver(key) => {
                assert!(commands.contains(&LayerCommand::RemoveObserver(key)))
            }
            LayerCommand::AddSublayer => {
                assert!(commands.contains(&LayerCommand::RemoveFromSuperlayer))
            }
            _ => {}
        }
    }
}

#[test]
fn frame_left_open_keeps_its_lock() {
    let mut window = window(8, 4);
    assert_eq!(start(&mut window).drop(9), Err(LockError::Unlock(9)));
    assert_eq!(window.back_buffer().locks, 1);
    let frame = start(&mut window);
    assert_eq!(*frame.surface(), 3);
    assert_eq!(frame.buffers.back().locks, 2);
    frame.present_with_damage(&[], 0).unwrap();
    let frame = start(&mut window);
    assert_eq!((frame.buffers.front().surface.handle, frame.buffers.front().locks), (3, 1));
    assert_eq!((frame.buffers.back().surface.handle, frame.buffers.back().locks), (2, 1));
    assert_eq!(frame.drop(0), Ok(()));
    assert_eq!(window.back_buffer().locks, 0);
}

#[test]
fn shown_surface_is_not_drawn_into() {
    let mut window = window(8, 4);
    for _ in 0..9 {
        let frame = start(&mut window);
        let drawn = *frame.surface();
        frame.present_with_damage(&[], 0).unwrap();
        assert_ne!(window.back_buffer().surface.handle, drawn);
    }
}

#[test]
fn frames_keep_the_configured_size() {
    let mut window = window(8, 4);
    let mut pending = window.configure(16, 2, AlphaMode::Opaque).unwrap().recreate.unwrap();
    fill(&mut pending, 11, 16, 2);
    window.replace_buffers(pending);
    for _ in 0..5 {
        let frame = start(&mut window);
        assert_eq!((frame.width(), frame.height()), (16, 2));
        frame.present_with_damage(&[], 0).unwrap();
        assert_eq!(start(&mut window).drop(0), Ok(()));
        assert!(window.configure(16, 2, AlphaMode::Premultiplied).unwrap().recreate.is_none());
    }
    assert_eq!(start(&mut window).age(), 3);
}

#[test]
fn ages_name_frames_and_recent_ones_are_left_alone() {
    let mut window = window(8, 4);
    let mut shown: Vec<u32> = Vec::new();
    for round in 0..12 {
        if round % 5 == 4 {
            let size = 8 + round;
            let mut pending = window.configure(size, 4, AlphaMode::Opaque).unwrap().recreate.unwrap();
            fill(&mut pending, 100 * round, size, 4);
            window.replace_buffers(pending);
        }
        if round % 3 == 1 {
            start(&mut window).drop(1).unwrap_err();
        }
        let frame = start(&mut window);
        let drawn = *frame.surface();
        let recent = &shown[shown.len().saturating_sub(2)..];
        assert!(!recent.contains(&drawn));
        if frame.age() == 0 {
            assert!(!shown.contains(&drawn));
        } else {
            assert_eq!(shown[shown.len() - frame.age() as usize], drawn);
        }
        match frame.present_with_damage(&[], 0).unwrap()[2] {
            LayerCommand::SetContents(surface) => shown.push(*surface),
            _ => panic!("no surface was shown"),
        }
    }
}

#[test]
fn stride_spans_the_pixels() {
    let mut window = window(10, 5);
    let frame = start(&mut window);
    assert!(frame.byte_stride() >= 4 * frame.width());
    let bytes = frame.byte_stride() as usize * frame.height() as usize;
    assert_eq!(frame.pixels_len(), bytes / 4);
}
