use powerext::converter::{set_data_dir, DataDir};
use powerext::platform::Platform;
use powerext::tools::{
    find_tool, lookup_program, path_lookup, tool_path, Binary, Embedded, ExtractStep, ToolSource,
};
use std::path::PathBuf;

#[test]
fn programs_are_carried_along_on_macos_only() {
    let mac = |n: &str| tool_path(Platform::MacOs, n);
    assert_eq!(mac("ffmpeg"), ToolSource::Embedded(Embedded::Ffmpeg));
    assert_eq!(mac("convert"), ToolSource::Embedded(Embedded::Convert));
    assert_eq!(mac("magick"), ToolSource::Embedded(Embedded::Magick));
    assert_eq!(mac("soffice"), ToolSource::SearchPath);
    for p in [Platform::Linux, Platform::Windows, Platform::Other] {
        assert_eq!(tool_path(p, "ffmpeg"), ToolSource::SearchPath);
    }
}

#[test]
fn an_embedded_program_lies_under_its_name() {
    assert_eq!(Embedded::Ffmpeg.path(), "bin/ffmpeg");
    assert_eq!(Embedded::Convert.path(), "bin/convert");
    assert_eq!(Embedded::Magick.path(), "bin/magick");
    assert_eq!(Embedded::Convert.extracted(true), Some("bin/convert".to_string()));
    assert_eq!(Embedded::Convert.extracted(false), None);
}

#[test]
fn a_program_is_extracted_unless_it_is_there() {
    assert!(Embedded::Ffmpeg.extract_steps(true).is_empty());
    for (program, path, carried) in [
        (Embedded::Ffmpeg, "bin/ffmpeg", Binary::Ffmpeg),
        (Embedded::Convert, "bin/convert", Binary::Magick),
        (Embedded::Magick, "bin/magick", Binary::Magick),
    ] {
        match program.extract_steps(false).as_slice() {
            [
                ExtractStep::CreateDir { dir },
                ExtractStep::Write { file, binary },
                ExtractStep::SetMode { file: moded, mode },
            ] => {
                assert_eq!(*dir, "bin");
                assert_eq!(file, path);
                assert_eq!(*binary, carried);
                assert_eq!(moded, path);
                assert_eq!(*mode, 0o755);
            }
            other => panic!("{other:?}"),
        }
    }
}

#[test]
fn the_data_directory_comes_first() {
    let mut dir = DataDir::unset();
    assert_eq!(find_tool(Platform::MacOs, "ffmpeg", &dir), vec![ToolSource::SearchPath]);
    set_data_dir(&mut dir, PathBuf::from("/data"));
    assert_eq!(
        find_tool(Platform::MacOs, "ffmpeg", &dir),
        vec![ToolSource::Embedded(Embedded::Ffmpeg), ToolSource::SearchPath],
    );
    assert_eq!(
        find_tool(Platform::Linux, "ffmpeg", &dir),
        vec![ToolSource::SearchPath, ToolSource::SearchPath],
    );
}

#[test]
fn the_data_directory_is_set_once() {
    let mut dir = DataDir::unset();
    set_data_dir(&mut dir, PathBuf::from("/first"));
    set_data_dir(&mut dir, PathBuf::from("/second"));
    assert_eq!(dir.path, Some(PathBuf::from("/first")));
}

#[test]
fn the_search_path_is_looked_up() {
    assert_eq!(lookup_program(Platform::Windows), "where");
    assert_eq!(lookup_program(Platform::Linux), "which");
    assert_eq!(lookup_program(Platform::MacOs), "which");
    assert_eq!(lookup_program(Platform::Other), "which");
    let out = || Some("/usr/bin/ffmpeg\n".to_string());
    assert_eq!(path_lookup(true, out()), Some("/usr/bin/ffmpeg".to_string()));
    assert_eq!(path_lookup(false, out()), None);
    assert_eq!(path_lookup(true, None), None);
}
