use reflac::error::ReflacError;

#[test]
fn messages_name_the_kind_and_the_value() {
    assert_eq!(
        ReflacError::InputTrackNotFound(12).message(),
        "Input file not found for track: 12"
    );
    assert_eq!(
        ReflacError::InvalidInputPath(String::from("a/b.txt")).message(),
        "Invalid input path: a/b.txt"
    );
    assert_eq!(
        ReflacError::InvalidTrackinfo(String::from("FOO")).message(),
        "Invalid TRACKINFO line: FOO"
    );
    assert_eq!(ReflacError::MissingInput(0).message(), "Missing INPUT for track: 0");
    assert_eq!(
        ReflacError::NoFlacFilesFound(String::from("/x")).message(),
        "No FLAC files found: /x"
    );
    assert_eq!(
        ReflacError::PathDoesNotExist(String::from("/y")).message(),
        "Path does not exist: /y"
    );
    assert_eq!(ReflacError::SubprocessError("unzip").message(), "Failure executing: unzip");
    assert_eq!(
        ReflacError::UnknownArchiveType(String::from("tar")).message(),
        "Unknown archive type: tar"
    );
    assert_eq!(ReflacError::MissingAlbum.message(), "Missing ALBUM");
    assert_eq!(
        ReflacError::InvalidPattern(String::from("(")).message(),
        "Invalid pattern: ("
    );
}
