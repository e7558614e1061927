//! The command line: its arguments, the commands they name, and the log format they select.
use vstd::prelude::*;
use crate::chars::chars_of;
use crate::watch_filter::ascii_lowercase;

verus! {

/// The parsed command line.
#[derive(Clone, Debug)]
pub struct Cli {
    pub command: Option<Commands>,
    /// The slide file when no command is given.
    pub file: Option<String>,
    /// `human` (the default) or `json`.
    pub log_format: String,
}

/// The tool's commands.
#[derive(Clone, Debug)]
pub enum Commands {
    /// Set up a presentation project in a directory (default `.`).
    Init { path: String, rust: bool },
    /// Create a presentation project in a new directory.
    New { name: String, rust: bool },
    /// Present a slide file in the player.
    Run { file: String, animation: String, watch: bool, fullscreen: bool },
    /// Present with live reload.
    Dev { file: String, animation: String, fullscreen: bool },
    /// Build a standalone presentation executable.
    Build { file: String, output: Option<String>, animation: String },
    /// Export to PDF or SVG pages.
    Export { file: String, format: String, output: Option<String> },
}

/// Log output format.
#[derive(Clone, Copy, Debug, PartialEq, Eq, Structural)]
pub enum LogFormat {
    Human,
    Json,
}

impl LogFormat {
    /// `json` in any ASCII case selects JSON logs; anything else human-readable ones.
    pub fn from_str(s: &str) -> (r: LogFormat)
        ensures
            r == (if ascii_lowercase(s@) == "json"@ { LogFormat::Json } else { LogFormat::Human }),
    {
        let v = chars_of(s);
        let json = chars_of("json");
        proof {
            reveal_strlit("json");
        }
        if v.len() != 4 {
            proof {
                assert(ascii_lowercase(v@).len() != 4);
            }
            return LogFormat::Human;
        }
        let mut i: usize = 0;
        let mut same = true;
        while i < 4 && same
            invariant
                v@.len() == 4,
                json@ == "json"@,
                json@.len() == 4,
                i <= 4,
                same == (forall|j: int| 0 <= j < i ==> #[trigger] ascii_lowercase(v@)[j] == json@[j]),
            decreases 4 - i,
        {
            let c = v[i];
            let l = if 'A' <= c && c <= 'Z' { ((c as u8) + 32) as char } else { c };
            proof {
                assert(ascii_lowercase(v@)[i as int] == l);
            }
            if l != json[i] {
                same = false;
            }
            i += 1;
        }
        proof {
            if same {
                assert(ascii_lowercase(v@) =~= json@);
            } else {
                let j = choose|j: int| 0 <= j < i && #[trigger] ascii_lowercase(v@)[j] != json@[j];
                assert(ascii_lowercase(v@)[j] != json@[j]);
            }
        }
        if same {
            LogFormat::Json
        } else {
            LogFormat::Human
        }
    }
}

/// The arguments without the `slide` that Cargo inserts when the tool runs as `cargo slide`.
pub open spec fn without_cargo_subcommand(args: Seq<Seq<char>>) -> Seq<Seq<char>> {
    if args.len() > 1 && args[1] == "slide"@ {
        args.remove(1)
    } else {
        args
    }
}

/// Drops the `slide` argument that Cargo inserts after the program name.
pub fn strip_cargo_subcommand(args: Vec<String>) -> (r: Vec<String>)
    ensures
        r@.map_values(|a: String| a@) == without_cargo_subcommand(args@.map_values(|a: String| a@)),
{
    let mut args = args;
    if args.len() > 1 {
        let second = chars_of(args[1].as_str());
        let slide = chars_of("slide");
        let mut same = second.len() == slide.len();
        let mut i: usize = 0;
        while same && i < second.len()
            invariant
                same ==> second@.len() == slide@.len(),
                i <= second@.len(),
                same == (second@.len() == slide@.len() && forall|j: int| 0 <= j < i ==> second@[j] == slide@[j]),
            decreases second.len() - i,
        {
            if second[i] != slide[i] {
                same = false;
            }
            i += 1;
        }
        proof {
            if same {
                assert(second@ =~= slide@);
            } else if second@.len() == slide@.len() {
                let j = choose|j: int| 0 <= j < i && second@[j] != slide@[j];
                assert(second@[j] != slide@[j]);
            }
        }
        let ghost before = args@;
        if same {
            args.remove(1);
            proof {
                assert(args@.map_values(|a: String| a@) =~= before.map_values(|a: String| a@).remove(1));
            }
        }
    }
    args
}

/// The command to carry out: a missing command presents the given file (default `slides.typ`) with
/// cross-fades; `dev` is `run` with live reload; other commands are as given.
pub fn resolve_command(command: Option<Commands>, file: Option<String>) -> (r: Commands)
    ensures
        match command {
            None => r matches Commands::Run { file: f, animation: a, watch: w, fullscreen: fs } && (match file {
                Some(given) => f@ == given@,
                None => f@ == "slides.typ"@,
            }) && a@ == "fade"@ && !w && !fs,
            Some(Commands::Dev { file: df, animation: da, fullscreen: dfs }) => r matches Commands::Run {
                file: f,
                animation: a,
                watch: w,
                fullscreen: fs,
            } && f == df && a == da && w && fs == dfs,
            Some(c) => r == c,
        },
{
    match command {
        None => {
            let f = match file {
                Some(given) => given,
                None => "slides.typ".to_string(),
            };
            Commands::Run { file: f, animation: "fade".to_string(), watch: false, fullscreen: false }
        },
        Some(Commands::Dev { file, animation, fullscreen }) => Commands::Run {
            file,
            animation,
            watch: true,
            fullscreen,
        },
        Some(c) => c,
    }
}

} // verus!
