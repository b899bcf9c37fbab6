use cbak::protocol::{Frame, decode_frame, encode_frame, encode_path_response};

#[test]
fn decode_reload_frame() {
    let f = decode_frame(&vec![2u8, 10]);
    assert_eq!(f, Frame { reload: true, query_path: false });
}

#[test]
fn decode_query_frame() {
    let f = decode_frame(&vec![4u8, 10]);
    assert_eq!(f, Frame { reload: false, query_path: true });
}

#[test]
fn decode_combined_frame() {
    let f = decode_frame(&vec![6u8, 10]);
    assert_eq!(f, Frame { reload: true, query_path: true });
}

#[test]
fn decode_empty_frame_is_noop() {
    let f = decode_frame(&vec![]);
    assert_eq!(f, Frame { reload: false, query_path: false });
}

#[test]
fn decode_whitespace_frame_is_noop() {
    let f = decode_frame(&vec![32u8, 9, 10]);
    assert_eq!(f, Frame { reload: false, query_path: false });
}

#[test]
fn decode_unknown_bits_set_no_flags() {
    let f = decode_frame(&vec![0u8, 10]);
    assert_eq!(f, Frame { reload: false, query_path: false });
    let g = decode_frame(&vec![8u8, 10]);
    assert_eq!(g, Frame { reload: false, query_path: false });
}

#[test]
fn decode_skips_leading_whitespace() {
    let f = decode_frame(&vec![32u8, 2, 10]);
    assert_eq!(f, Frame { reload: true, query_path: false });
}

#[test]
fn frame_round_trip() {
    for &(reload, query) in
        &[(false, false), (true, false), (false, true), (true, true)]
    {
        let bytes = encode_frame(reload, query);
        assert_eq!(bytes.len(), 2);
        assert_eq!(bytes[1], 10);
        let f = decode_frame(&bytes);
        assert_eq!(f, Frame { reload, query_path: query });
    }
}

#[test]
fn path_response_is_newline_terminated() {
    let r = encode_path_response(&b"/etc/cbak/config.toml".to_vec());
    assert_eq!(r, b"/etc/cbak/config.toml\n".to_vec());
}
