//! The capability adapter across its four call shapes, the reference
//! plugins, and the wire boundary.

use plugin_manager::adapter::{
    decode_all, execute, execute_from_stream, execute_stream, execute_stream_with_stream,
};
use plugin_manager::adb::AdbCommand;
use plugin_manager::model::RuntimeError;
use plugin_manager::plugins::{EchoPlugin, UppercasePlugin};
use plugin_manager::registry::{ModuleInitOutcome, PluginManager};
use plugin_manager::model::{PluginMetadata, PluginType};
use plugin_manager::wire::{demux_request, wire_error_code, wrap_response, wrap_responses, WireFrame};

#[test]
fn echo_unary_round_trip() {
    let r = execute(&EchoPlugin, b"ping".to_vec()).unwrap();
    assert_eq!(r, b"ping".to_vec());
}

#[test]
fn echo_server_stream_is_one_element() {
    let r = execute_stream(&EchoPlugin, b"ping".to_vec()).unwrap();
    assert_eq!(r, vec![b"ping".to_vec()]);
}

#[test]
fn echo_client_stream_concatenates() {
    let chunks = vec![b"pi".to_vec(), b"ng".to_vec(), b"!".to_vec()];
    let r = execute_from_stream(&EchoPlugin, chunks).unwrap();
    assert_eq!(r, b"ping!".to_vec());
}

#[test]
fn echo_bidirectional_stream_is_identity() {
    let chunks = vec![b"a".to_vec(), b"b".to_vec()];
    let r = execute_stream_with_stream(&EchoPlugin, chunks.clone()).unwrap();
    assert_eq!(r, chunks);
}

#[test]
fn uppercase_call_uppercases() {
    let r = execute(&UppercasePlugin, b"list".to_vec()).unwrap();
    assert_eq!(r, b"LIST".to_vec());
    let r = execute(&UppercasePlugin, b"Mixed 123 case!".to_vec()).unwrap();
    assert_eq!(r, b"MIXED 123 CASE!".to_vec());
}

#[test]
fn unoffered_capability_is_not_implemented() {
    assert!(matches!(
        execute_stream(&UppercasePlugin, b"x".to_vec()),
        Err(RuntimeError::NotImplemented)
    ));
    assert!(matches!(
        execute_from_stream(&UppercasePlugin, vec![b"x".to_vec()]),
        Err(RuntimeError::NotImplemented)
    ));
    assert!(matches!(
        execute_stream_with_stream(&UppercasePlugin, vec![b"x".to_vec()]),
        Err(RuntimeError::NotImplemented)
    ));
}

#[test]
fn stream_conversion_fails_fast_on_any_bad_element() {
    // the middle chunk is not valid UTF-8, so it can never decode as a command
    let chunks = vec![b"connect".to_vec(), vec![0xFF, 0xFE], b"list".to_vec()];
    let r: Result<Vec<AdbCommand>, RuntimeError> = decode_all(chunks);
    assert!(matches!(r, Err(RuntimeError::ConversionError)));
    let ok: Result<Vec<AdbCommand>, RuntimeError> =
        decode_all(vec![b"connect".to_vec(), b"list".to_vec()]);
    assert_eq!(ok.unwrap().len(), 2);
}

#[test]
fn loaded_uppercase_plugin_answers_list() {
    // drive the registry the way the host would, then dispatch the call
    let mut manager = PluginManager::new();
    let meta = PluginMetadata::new("upper", "0.1.0", "a", None, PluginType::RustLibrary);
    let ids = manager.scan(vec![(meta, "plugins/upper".to_string())]);
    manager
        .load_plugin(&ids[0], ModuleInitOutcome::Initialized(true))
        .unwrap();
    let _handle = manager.prepare_call(&ids[0]).unwrap();
    let response = execute(&UppercasePlugin, b"list".to_vec()).unwrap();
    assert_eq!(response, b"LIST".to_vec());
}

#[test]
fn demux_takes_id_then_chunks() {
    let frames = vec![
        WireFrame::Id("43f551f96ddd5314b63cb342".to_string()),
        WireFrame::Data(b"li".to_vec()),
        WireFrame::Data(b"st".to_vec()),
    ];
    let (id, chunks) = demux_request(frames).unwrap();
    assert_eq!(id.as_str(), "43f551f96ddd5314b63cb342");
    assert_eq!(chunks, vec![b"li".to_vec(), b"st".to_vec()]);
}

#[test]
fn demux_rejects_data_first() {
    let frames = vec![WireFrame::Data(b"list".to_vec()), WireFrame::Id("x".to_string())];
    assert!(matches!(demux_request(frames), Err(RuntimeError::ProtocolError)));
}

#[test]
fn demux_rejects_empty_stream_and_empty_frames() {
    assert!(matches!(demux_request(Vec::new()), Err(RuntimeError::ProtocolError)));
    let frames = vec![WireFrame::Empty, WireFrame::Data(b"x".to_vec())];
    assert!(matches!(demux_request(frames), Err(RuntimeError::ProtocolError)));
    let frames = vec![WireFrame::Id("x".to_string()), WireFrame::Empty];
    assert!(matches!(demux_request(frames), Err(RuntimeError::ProtocolError)));
}

#[test]
fn demux_rejects_late_id() {
    let frames = vec![
        WireFrame::Id("x".to_string()),
        WireFrame::Data(b"a".to_vec()),
        WireFrame::Id("y".to_string()),
    ];
    assert!(matches!(demux_request(frames), Err(RuntimeError::ProtocolError)));
}

#[test]
fn demux_of_bare_id_yields_empty_chunks() {
    let frames = vec![WireFrame::Id("x".to_string())];
    let (id, chunks) = demux_request(frames).unwrap();
    assert_eq!(id.as_str(), "x");
    assert!(chunks.is_empty());
}

#[test]
fn wire_error_codes_are_stable() {
    assert_eq!(wire_error_code(&RuntimeError::NotFound), 5);
    assert_eq!(wire_error_code(&RuntimeError::InvalidState), 9);
    assert_eq!(wire_error_code(&RuntimeError::HandleMissing), 13);
    assert_eq!(wire_error_code(&RuntimeError::ModuleLoadError("m".to_string())), 13);
    assert_eq!(wire_error_code(&RuntimeError::PluginInitError), 13);
    assert_eq!(wire_error_code(&RuntimeError::ConversionError), 3);
    assert_eq!(wire_error_code(&RuntimeError::ProtocolError), 3);
    assert_eq!(wire_error_code(&RuntimeError::PluginError("p".to_string())), 13);
    assert_eq!(wire_error_code(&RuntimeError::NotImplemented), 12);
}

#[test]
fn responses_are_wrapped_in_order() {
    let one = wrap_response(b"payload".to_vec());
    assert_eq!(one.data, b"payload".to_vec());
    let many = wrap_responses(vec![b"a".to_vec(), b"b".to_vec()]);
    assert_eq!(many.len(), 2);
    assert_eq!(many[0].data, b"a".to_vec());
    assert_eq!(many[1].data, b"b".to_vec());
}
