use softbuffer_cg::cg::{MainThreadWindow, ViewKind, WindowHandle};
use softbuffer_cg::layer::{KeyPath, LayerCommand};
use softbuffer_cg::observer::{update, LayerUpdate, ObservedValue, ObserverError};
use softbuffer_cg::properties::{
    properties, CacheMode, ColorSpace, Property, PropertyKey, PropertyValue, SurfaceValue,
    BYTES_PER_PIXEL, PIXEL_FORMAT,
};
use softbuffer_cg::ring::PendingBuffers;
use softbuffer_cg::types::{HandleError, InitError, SoftBufferError};

type Value = ObservedValue<f64, (f64, f64, f64, f64)>;

const BOUNDS: (f64, f64, f64, f64) = (0.0, 0.0, 320.5, 200.0);

#[test]
fn only_the_main_thread_will_do() {
    let error = MainThreadWindow::new(1, false).err();
    let message = "can only access Core Graphics handles from the main thread".to_string();
    assert_eq!(
        error,
        Some(InitError::Failure(SoftBufferError::PlatformError(Some(message))))
    );
    assert!(MainThreadWindow::new(1, true).is_ok());
}

#[test]
fn root_layer_comes_from_the_view() {
    let root = MainThreadWindow::new(7, true).unwrap().root_layer(Ok(WindowHandle::AppKit));
    let root = root.unwrap();
    assert_eq!((*root.window(), root.view()), (7, ViewKind::AppKit));
    assert!(root.view().force_layer_backed());
    let root = MainThreadWindow::new(7, true).unwrap().root_layer(Ok(WindowHandle::UiKit));
    let root = root.unwrap();
    assert_eq!((*root.window(), root.view()), (7, ViewKind::UiKit));
    assert!(!root.view().force_layer_backed());
}

#[test]
fn other_windows_are_given_back() {
    let result = MainThreadWindow::new(7, true).unwrap().root_layer(Ok(WindowHandle::Other));
    assert_eq!(result, Err(InitError::Unsupported(7)));
}

#[test]
fn missing_handle_is_a_failure() {
    for reason in [HandleError::NotSupported, HandleError::Unavailable] {
        let result = MainThreadWindow::new(7, true).unwrap().root_layer(Err(reason));
        let error = SoftBufferError::RawWindowHandle(reason);
        assert_eq!(result, Err(InitError::Failure(error)));
    }
}

#[test]
fn layer_is_set_up_in_order() {
    let expected: Vec<LayerCommand<'_, u32>> = vec![
        LayerCommand::AddSublayer,
        LayerCommand::AnchorAtOrigin,
        LayerCommand::SetGeometryFlipped(true),
        LayerCommand::AddObserver(KeyPath::ContentsScale),
        LayerCommand::AddObserver(KeyPath::Bounds),
        LayerCommand::ResizeContents,
        LayerCommand::MagnifyNearest,
        LayerCommand::MinifyNearest,
        LayerCommand::SetOpaque(true),
    ];
    let root = MainThreadWindow::new(7, true).unwrap().root_layer(Ok(WindowHandle::UiKit));
    assert_eq!(root.unwrap().set_up::<u32>(), expected);
}

#[test]
fn key_names_are_read_back() {
    assert_eq!(KeyPath::ContentsScale.name(), "contentsScale");
    assert_eq!(KeyPath::Bounds.name(), "bounds");
    for key in [KeyPath::ContentsScale, KeyPath::Bounds] {
        assert_eq!(KeyPath::parse(key.name()), Some(key));
    }
    assert_eq!(KeyPath::parse("frame"), None);
    assert_eq!(KeyPath::parse(""), None);
    assert_eq!(KeyPath::parse("Bounds"), None);
}

#[test]
fn scale_factor_is_followed() {
    let change = Some(Some(Value::Number(2.0)));
    assert_eq!(update(Some("contentsScale"), change), Ok(LayerUpdate::ContentsScale(2.0)));
}

#[test]
fn bounds_are_followed() {
    let change = Some(Some(Value::Value(Some(BOUNDS))));
    assert_eq!(update(Some("bounds"), change), Ok(LayerUpdate::Frame(BOUNDS)));
}

#[test]
fn layer_follows_what_was_told_last() {
    let told = [
        ("contentsScale", Value::Number(1.0)),
        ("bounds", Value::Value(Some((0.0, 0.0, 1.0, 1.0)))),
        ("bounds", Value::Value(Some(BOUNDS))),
        ("contentsScale", Value::Number(2.0)),
    ];
    let mut scale = None;
    let mut frame = None;
    for (key, new) in told {
        match update(Some(key), Some(Some(new))).unwrap() {
            LayerUpdate::ContentsScale(new) => scale = Some(new),
            LayerUpdate::Frame(new) => frame = Some(new),
        }
    }
    assert_eq!((scale, frame), (Some(2.0), Some(BOUNDS)));
}

#[test]
fn change_must_be_there() {
    let change: Option<Option<Value>> = None;
    assert_eq!(update(Some("bounds"), change), Err(ObserverError::NoChange));
    let change: Option<Option<Value>> = None;
    assert_eq!(update(Some("frame"), change), Err(ObserverError::NoChange));
    let change: Option<Option<Value>> = Some(None);
    assert_eq!(update(None, change), Err(ObserverError::NoNewValue));
}

#[test]
fn new_value_must_fit_the_key() {
    let change = Some(Some(Value::Value(Some(BOUNDS))));
    assert_eq!(update(Some("contentsScale"), change), Err(ObserverError::WrongClass));
    let change = Some(Some(Value::Other));
    assert_eq!(update(Some("contentsScale"), change), Err(ObserverError::WrongClass));
    let change = Some(Some(Value::Other));
    assert_eq!(update(Some("bounds"), change), Err(ObserverError::WrongClass));
    let change = Some(Some(Value::Value(None)));
    assert_eq!(update(Some("bounds"), change), Err(ObserverError::NotARect));
    let change = Some(Some(Value::Number(1.0)));
    assert_eq!(update(Some("bounds"), change), Err(ObserverError::NotARect));
}

#[test]
fn other_keys_are_unknown() {
    let change = Some(Some(Value::Number(1.0)));
    assert_eq!(update(Some("opacity"), change), Err(ObserverError::UnknownKeyPath));
    let change = Some(Some(Value::Number(1.0)));
    assert_eq!(update(None, change), Err(ObserverError::UnknownKeyPath));
}

fn property(key: PropertyKey, value: PropertyValue) -> Property {
    Property { key, value }
}

#[test]
fn buffers_are_asked_for_in_bgra() {
    assert_eq!(PIXEL_FORMAT.to_be_bytes(), *b"BGRA");
    assert_eq!(BYTES_PER_PIXEL, 4);
    let pending: PendingBuffers<u32> = PendingBuffers::new(640, 480);
    let expected = vec![
        property(PropertyKey::Width, PropertyValue::Size(640)),
        property(PropertyKey::Height, PropertyValue::Size(480)),
        property(PropertyKey::PixelFormat, PropertyValue::Code(1111970369)),
        property(PropertyKey::BytesPerElement, PropertyValue::Code(4)),
    ];
    assert_eq!(pending.request(false).unwrap().properties, expected);
}

#[test]
fn buffers_are_in_the_color_space_of_the_device() {
    let pending: PendingBuffers<u32> = PendingBuffers::new(640, 480);
    let values = pending.request(false).unwrap().values;
    assert_eq!(values, vec![SurfaceValue::ColorSpace(ColorSpace::DeviceRgb)]);
}

#[test]
fn strict_surfaces_do_not_cast_pixels() {
    let list = properties(1, 2, 3, 4, false, true);
    assert_eq!(list.len(), 5);
    assert_eq!(
        list[4],
        property(PropertyKey::PixelSizeCastingAllowed, PropertyValue::Flag(false))
    );
}

#[test]
fn write_combining_is_asked_for_last() {
    let list = properties(1, 2, 3, 4, true, true);
    assert_eq!(list.len(), 6);
    assert_eq!(
        list[5],
        property(PropertyKey::CacheMode, PropertyValue::Cache(CacheMode::WriteCombine))
    );
    assert_eq!(properties(1, 2, 3, 4, true, false).len(), 5);
}

#[test]
fn property_keys_are_distinct() {
    let list = properties(1, 2, 3, 4, true, true);
    for (i, one) in list.iter().enumerate() {
        for other in &list[i + 1..] {
            assert_ne!(one.key, other.key);
        }
    }
}

#[test]
fn pixel_format_is_reinterpreted() {
    let list = properties(u32::MAX, 0, u32::MAX, 4, false, false);
    assert_eq!(list[0].value, PropertyValue::Size(u32::MAX as isize));
    assert_eq!(list[2].value, PropertyValue::Code(-1));
}
