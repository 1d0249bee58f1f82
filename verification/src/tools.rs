//! Outside programs: where they are looked for.

use crate::converter::DataDir;
use crate::platform::Platform;
use crate::text::{text_eq, trim, trimmed};
use vstd::prelude::*;
use vstd::string::*;

verus! {

/// What the macOS build carries along.
#[derive(Clone, Copy, Debug, PartialEq, Eq, Structural)]
pub enum Binary {
    Ffmpeg,
    Magick,
}

/// A program of which the macOS build has a copy.
#[derive(Clone, Copy, Debug, PartialEq, Eq, Structural)]
pub enum Embedded {
    Ffmpeg,
    Convert,
    Magick,
}

/// The name by which a program is asked for.
pub open spec fn program_name(program: Embedded) -> Seq<char> {
    match program {
        Embedded::Ffmpeg => "ffmpeg"@,
        Embedded::Convert => "convert"@,
        Embedded::Magick => "magick"@,
    }
}

/// Where a program that is carried along lies, below the data directory.
pub open spec fn program_path(program: Embedded) -> Seq<char> {
    "bin/"@ + program_name(program)
}

/// A step of putting a program in its place. Paths are given below the data directory.
#[derive(Debug)]
pub enum ExtractStep {
    /// Create a directory, with those above it.
    CreateDir { dir: &'static str },
    /// Write what is carried along to a file.
    Write { file: String, binary: Binary },
    /// Set the mode of a file.
    SetMode { file: String, mode: u32 },
}

/// The contents of an [`ExtractStep`].
pub enum ExtractStepView {
    CreateDir { dir: Seq<char> },
    Write { file: Seq<char>, binary: Binary },
    SetMode { file: Seq<char>, mode: u32 },
}

impl View for ExtractStep {
    type V = ExtractStepView;

    open spec fn view(&self) -> ExtractStepView {
        match *self {
            ExtractStep::CreateDir { dir } => ExtractStepView::CreateDir { dir: dir@ },
            ExtractStep::Write { file, binary } => ExtractStepView::Write { file: file@, binary },
            ExtractStep::SetMode { file, mode } => ExtractStepView::SetMode { file: file@, mode },
        }
    }
}

/// The contents of a list of steps.
pub open spec fn extract_views(steps: Seq<ExtractStep>) -> Seq<ExtractStepView> {
    steps.map_values(|s: ExtractStep| s@)
}

/// The mode of a program: everyone may run it, its owner may write it.
pub const PROGRAM_MODE: u32 = 0o755;

impl Embedded {
    /// What it is a copy of.
    pub open spec fn binary_view(self) -> Binary {
        match self {
            Embedded::Ffmpeg => Binary::Ffmpeg,
            Embedded::Convert => Binary::Magick,
            Embedded::Magick => Binary::Magick,
        }
    }

    /// Where it lies, below the data directory.
    pub fn path(self) -> (res: String)
        ensures
            res@ == program_path(self),
    {
        let name = match self {
            Embedded::Ffmpeg => "ffmpeg",
            Embedded::Convert => "convert",
            Embedded::Magick => "magick",
        };
        let mut s = "bin/".to_owned();
        s.append(name);
        s
    }

    /// The steps that put it in its place; none where its file is there already.
    pub fn extract_steps(self, there: bool) -> (res: Vec<ExtractStep>)
        ensures
            extract_views(res@) == if there {
                Seq::empty()
            } else {
                seq![
                    ExtractStepView::CreateDir { dir: "bin"@ },
                    ExtractStepView::Write {
                        file: program_path(self),
                        binary: self.binary_view(),
                    },
                    ExtractStepView::SetMode { file: program_path(self), mode: PROGRAM_MODE },
                ]
            },
    {
        let mut steps: Vec<ExtractStep> = Vec::new();
        if there {
            assert(extract_views(steps@) =~= Seq::<ExtractStepView>::empty());
            return steps;
        }
        let binary = match self {
            Embedded::Ffmpeg => Binary::Ffmpeg,
            _ => Binary::Magick,
        };
        steps.push(ExtractStep::CreateDir { dir: "bin" });
        steps.push(ExtractStep::Write { file: self.path(), binary });
        steps.push(ExtractStep::SetMode { file: self.path(), mode: PROGRAM_MODE });
        assert(extract_views(steps@) =~= seq![
            ExtractStepView::CreateDir { dir: "bin"@ },
            ExtractStepView::Write { file: program_path(self), binary: self.binary_view() },
            ExtractStepView::SetMode { file: program_path(self), mode: PROGRAM_MODE },
        ]);
        steps
    }

    /// Where it is to be had after the steps: at its place where they were all done, else
    /// nowhere.
    pub fn extracted(self, done: bool) -> (res: Option<String>)
        ensures
            match res {
                Some(path) => done && path@ == program_path(self),
                None => !done,
            },
    {
        if done {
            Some(self.path())
        } else {
            None
        }
    }
}

/// Where a program comes from.
#[derive(Clone, Copy, Debug, PartialEq, Eq, Structural)]
pub enum ToolSource {
    /// It is carried along, and put into the data directory when it is first needed.
    Embedded(Embedded),
    /// It is looked up in the search path.
    SearchPath,
}

/// Where a program comes from once the data directory is known.
pub open spec fn source_of_tool(platform: Platform, name: Seq<char>) -> ToolSource {
    if platform == Platform::MacOs && name == "ffmpeg"@ {
        ToolSource::Embedded(Embedded::Ffmpeg)
    } else if platform == Platform::MacOs && name == "convert"@ {
        ToolSource::Embedded(Embedded::Convert)
    } else if platform == Platform::MacOs && name == "magick"@ {
        ToolSource::Embedded(Embedded::Magick)
    } else {
        ToolSource::SearchPath
    }
}

/// Decides where a program comes from once the data directory is known: from the build itself
/// where that has a copy, else from the search path.
pub fn tool_path(platform: Platform, name: &str) -> (res: ToolSource)
    ensures
        res == source_of_tool(platform, name@),
        res matches ToolSource::Embedded(program) ==> program_path(program) == "bin/"@ + name@,
{
    match platform {
        Platform::MacOs => {
            if text_eq(name, "ffmpeg") {
                ToolSource::Embedded(Embedded::Ffmpeg)
            } else if text_eq(name, "convert") {
                ToolSource::Embedded(Embedded::Convert)
            } else if text_eq(name, "magick") {
                ToolSource::Embedded(Embedded::Magick)
            } else {
                ToolSource::SearchPath
            }
        },
        _ => ToolSource::SearchPath,
    }
}

/// The places to try for a program, in order. The first one that has it counts.
pub fn find_tool(platform: Platform, name: &str, data_dir: &DataDir) -> (res: Vec<ToolSource>)
    ensures
        res@ == if data_dir.path is Some {
            seq![source_of_tool(platform, name@), ToolSource::SearchPath]
        } else {
            seq![ToolSource::SearchPath]
        },
{
    let mut places: Vec<ToolSource> = Vec::new();
    if data_dir.path.is_some() {
        places.push(tool_path(platform, name));
    }
    places.push(ToolSource::SearchPath);
    places
}

/// The program that looks another one up in the search path.
pub fn lookup_program(platform: Platform) -> (res: &'static str)
    ensures
        res@ == if platform == Platform::Windows {
            "where"@
        } else {
            "which"@
        },
{
    match platform {
        Platform::Windows => "where",
        _ => "which",
    }
}

/// Reads what the lookup put out: a path, where it succeeded and put out Unicode, without the
/// white space around it.
pub fn path_lookup(success: bool, stdout: Option<String>) -> (res: Option<String>)
    ensures
        match stdout {
            Some(s) if success => res matches Some(p) && p@ == trimmed(s@),
            _ => res is None,
        },
{
    match stdout {
        Some(s) => if success {
            Some(trim(s.as_str()))
        } else {
            None
        },
        None => None,
    }
}

/// On macOS the programs that the build has are taken from it, each under its own name and with what
/// it is a copy of; every other program, and any program on any other system, is looked up.
pub proof fn law_where_programs_come_from(platform: Platform, name: Seq<char>)
    ensures
        platform != Platform::MacOs ==> source_of_tool(platform, name) == ToolSource::SearchPath,
        name != "ffmpeg"@ && name != "convert"@ && name != "magick"@ ==> source_of_tool(
            platform,
            name,
        ) == ToolSource::SearchPath,
        platform == Platform::MacOs && (name == "ffmpeg"@ || name == "convert"@ || name == "magick"@)
            ==> (source_of_tool(platform, name) matches ToolSource::Embedded(program) && {
            &&& program_path(program) == "bin/"@ + name
            &&& program.binary_view() == if name == "ffmpeg"@ {
                Binary::Ffmpeg
            } else {
                Binary::Magick
            }
        }),
{
    reveal_strlit("ffmpeg");
    reveal_strlit("convert");
    reveal_strlit("magick");
    assert("ffmpeg"@[0] != "magick"@[0]);
    assert("ffmpeg"@.len() != "convert"@.len());
    assert("magick"@.len() != "convert"@.len());
}

/// What a step says of itself is what it holds.
pub proof fn law_the_contents_of_an_extract_step(steps: Seq<ExtractStep>, i: int)
    requires
        0 <= i < steps.len(),
    ensures
        extract_views(steps).len() == steps.len(),
        match steps[i] {
            ExtractStep::CreateDir { dir } => extract_views(steps)[i] == (
            ExtractStepView::CreateDir { dir: dir@ }),
            ExtractStep::Write { file, binary } => extract_views(steps)[i] == (
            ExtractStepView::Write { file: file@, binary }),
            ExtractStep::SetMode { file, mode } => extract_views(steps)[i] == (
            ExtractStepView::SetMode { file: file@, mode }),
        },
{
}

} // verus!
