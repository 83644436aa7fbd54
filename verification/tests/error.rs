use avif_parse::Error;

#[test]
fn errors_give_their_reason() {
    assert_eq!(Error::InvalidData("bad").message(), "bad");
    assert_eq!(Error::Unsupported("not yet").message(), "not yet");
    assert_eq!(Error::UnexpectedEOF.message(), "EOF");
    assert_eq!(Error::OutOfMemory.message(), "OOM");
}
