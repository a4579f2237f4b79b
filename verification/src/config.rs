//! Resolving the run's configuration from layered options: command-line
//! values win over settings-file values, and both fall back to defaults.
//! Validation rejects a source and output directory nested in one another.

use vstd::prelude::*;
use crate::paths::FilePath;

verus! {

/// The validated configuration of one run.
pub struct Config {
    pub source: FilePath,
    pub output: FilePath,
    pub minify: bool,
}

/// Why a configuration could not be produced.  Reading and parsing the
/// settings file happen in the surrounding binary, which wraps their
/// failures in the first two variants.
#[derive(Debug)]
pub enum ConfigError {
    ParseError(String),
    IoError(String),
    ValidationError(String),
}

/// One layer of options, each value possibly absent.  `minify_cli` carries
/// the command-line minify flag, which may be given without a value (then it
/// means `true`); `minify` carries the settings-file value.
pub struct Options {
    pub source: Option<FilePath>,
    pub output: Option<FilePath>,
    pub minify: Option<bool>,
    pub minify_cli: Option<Option<bool>>,
}

/// The view of an optional path.
pub open spec fn opt_path_view(o: Option<FilePath>) -> Option<Seq<Seq<char>>> {
    match o {
        Some(p) => Some(p@),
        None => None,
    }
}

/// What `merge` yields for the minify setting: an explicit command-line flag
/// wins, a bare flag means `true`, otherwise the other layer decides.
pub open spec fn merged_minify(lhs: Options, rhs: Options) -> Option<bool> {
    match lhs.minify_cli {
        Some(Some(b)) => Some(b),
        Some(None) => Some(true),
        None => rhs.minify,
    }
}

impl Options {
    /// A layer with every value absent.
    pub fn none() -> (r: Options)
        ensures
            r.source is None,
            r.output is None,
            r.minify is None,
            r.minify_cli is None,
    {
        Options { source: None, output: None, minify: None, minify_cli: None }
    }

    /// Overlays this layer on `rhs`: present values here win.
    pub fn merge(self, rhs: Self) -> (r: Self)
        ensures
            opt_path_view(r.source) == (if self.source is Some {
                opt_path_view(self.source)
            } else {
                opt_path_view(rhs.source)
            }),
            opt_path_view(r.output) == (if self.output is Some {
                opt_path_view(self.output)
            } else {
                opt_path_view(rhs.output)
            }),
            r.minify == merged_minify(self, rhs),
            r.minify_cli == self.minify_cli,
    {
        let minify: Option<bool> = match self.minify_cli {
            Some(Some(b)) => Some(b),
            Some(None) => Some(true),
            None => rhs.minify,
        };
        Options {
            source: match self.source {
                Some(p) => Some(p),
                None => rhs.source,
            },
            output: match self.output {
                Some(p) => Some(p),
                None => rhs.output,
            },
            minify,
            minify_cli: self.minify_cli,
        }
    }
}

/// The source directory the two layers resolve to.
pub open spec fn resolved_source(cli: Options, file: Option<Options>) -> Seq<Seq<char>> {
    if cli.source is Some {
        cli.source->Some_0@
    } else {
        match file {
            Some(f) => match f.source {
                Some(p) => p@,
                None => seq!["src"@],
            },
            None => seq!["src"@],
        }
    }
}

/// The output directory the two layers resolve to.
pub open spec fn resolved_output(cli: Options, file: Option<Options>) -> Seq<Seq<char>> {
    if cli.output is Some {
        cli.output->Some_0@
    } else {
        match file {
            Some(f) => match f.output {
                Some(p) => p@,
                None => seq!["dist"@],
            },
            None => seq!["dist"@],
        }
    }
}

/// The minify switch the two layers resolve to.
pub open spec fn resolved_minify(cli: Options, file: Option<Options>) -> bool {
    match cli.minify_cli {
        Some(Some(b)) => b,
        Some(None) => true,
        None => match file {
            Some(f) => match f.minify {
                Some(b) => b,
                None => false,
            },
            None => false,
        },
    }
}

/// Whether one of the two directories lies under the other (or they are the
/// same): such a pair is rejected.
pub open spec fn nested(source: Seq<Seq<char>>, output: Seq<Seq<char>>) -> bool {
    source.is_prefix_of(output) || output.is_prefix_of(source)
}

impl Config {
    /// Resolves the command-line layer and the optional settings-file layer
    /// into a configuration, filling in the defaults `src`, `dist` and no
    /// minification, and rejects nested source and output directories before
    /// anything is generated.
    pub fn parse(cli: Options, file: Option<Options>) -> (r: Result<Config, ConfigError>)
        ensures
            r is Ok <==> !nested(resolved_source(cli, file), resolved_output(cli, file)),
            r matches Ok(c) ==> {
                &&& c.source@ == resolved_source(cli, file)
                &&& c.output@ == resolved_output(cli, file)
                &&& c.minify == resolved_minify(cli, file)
            },
            r matches Err(e) ==> e is ValidationError,
    {
        let layered = match file {
            Some(f) => cli.merge(f),
            None => cli.merge(Options::none()),
        };

        let source = match layered.source {
            Some(p) => p,
            None => {
                let mut p = FilePath::empty();
                p.push("src".to_owned());
                proof {
                    assert(p@ =~= seq!["src"@]);
                }
                p
            },
        };
        let output = match layered.output {
            Some(p) => p,
            None => {
                let mut p = FilePath::empty();
                p.push("dist".to_owned());
                proof {
                    assert(p@ =~= seq!["dist"@]);
                }
                p
            },
        };
        let minify = match layered.minify {
            Some(b) => b,
            None => false,
        };

        if output.starts_with(&source) {
            Err(ConfigError::ValidationError(
                "Output directory can't be under source directory.".to_owned(),
            ))
        } else if source.starts_with(&output) {
            Err(ConfigError::ValidationError(
                "Source directory can't be under output directory.".to_owned(),
            ))
        } else {
            Ok(Config { source, output, minify })
        }
    }

    /// A deep copy.
    pub fn duplicate(&self) -> (r: Config)
        ensures
            r.source@ == self.source@,
            r.output@ == self.output@,
            r.minify == self.minify,
    {
        Config {
            source: self.source.duplicate(),
            output: self.output.duplicate(),
            minify: self.minify,
        }
    }
}

} // verus!
