//! What a command line selects: the sink encoding, the schema encoding, the
//! delimiter, and the four commands with their arguments.

use vstd::prelude::*;
use crate::paths::{extension_of, path_extension};
use crate::text::{from_chars, lowercase, push_chars, str_equal, to_chars, to_lowercase};

verus! {

/// The encoding of a sink.
#[derive(Debug, Clone, Copy, PartialEq, Eq, Structural)]
pub enum OutputFormat {
    /// Delimited text.
    Csv,
    /// An array of row objects.
    Json,
    /// A columnar binary file.
    Parquet,
}

impl OutputFormat {
    /// The name of the format, in lower case.
    pub open spec fn name(self) -> Seq<char> {
        match self {
            OutputFormat::Csv => "csv"@,
            OutputFormat::Json => "json"@,
            OutputFormat::Parquet => "parquet"@,
        }
    }

    /// The name of the format, in lower case.
    pub fn to_string(&self) -> (r: String)
        ensures
            r@ == self.name(),
    {
        match self {
            OutputFormat::Csv => "csv".to_owned(),
            OutputFormat::Json => "json".to_owned(),
            OutputFormat::Parquet => "parquet".to_owned(),
        }
    }
}

/// The encoding of a column-definition source.
#[derive(Debug, Clone, Copy, PartialEq, Eq, Structural)]
pub enum SchemaFormat {
    /// Delimited text, one column definition in each row.
    Csv,
    /// An array of records with a name and a data type.
    Json,
}

/// Which fields the comparison of two field lists puts out, as the command
/// line names the modes.
#[derive(Debug, Clone, Copy, PartialEq, Eq, Structural)]
pub enum DiffOutputMode {
    /// Every field of either list.
    Union,
    /// The fields that are in one list only.
    Complement,
    /// The first list, with the fields that only the second has.
    DiffBasedOnFile1,
    /// The second list, with the fields that only the first has.
    DiffBasedOnFile2,
    /// The fields that only the first list has.
    OnlyInFile1,
    /// The fields that only the second list has.
    OnlyInFile2,
    /// The fields of the first list, in order.
    SortedFile1,
    /// The fields of the second list, in order.
    SortedFile2,
}

/// The arguments of a run.
#[derive(Debug, Clone)]
pub struct Cli {
    /// One of trace, debug, info, warn, error.
    pub log_level: String,
    pub command: Commands,
}

/// The four commands. A path is held as text.
#[derive(Debug, Clone)]
pub enum Commands {
    /// Converts a spreadsheet.
    Excel {
        input: String,
        output: String,
        /// When absent, the extension of `output` decides.
        format: Option<OutputFormat>,
        batch_size: usize,
        delimiter: char,
        threads: Option<usize>,
        skip_rows: usize,
    },
    /// Converts a delimited-text file.
    Csv {
        input: String,
        output: String,
        /// When absent, the extension of `output` decides.
        format: Option<OutputFormat>,
        batch_size: usize,
        delimiter: char,
        threads: Option<usize>,
        has_header: bool,
    },
    /// Generates random rows for a schema.
    DataGen {
        schema: String,
        schema_format: SchemaFormat,
        output: String,
        /// When absent, the extension of `output` decides.
        format: Option<OutputFormat>,
        rows: usize,
        delimiter: char,
        seed: Option<u64>,
    },
    /// Compares the field lists of two files.
    Diff {
        input1: String,
        input2: String,
        output: String,
        mode: DiffOutputMode,
        delimiter: char,
        report: Option<String>,
        ignore_case: bool,
        ignore_whitespace: bool,
        one_field_per_line: bool,
    },
}

/// The delimiter that a text stands for: the escapes `\t`, `\n` and `\r` for
/// tab, line feed and carriage return, and any text of one character for that
/// character. No other text stands for a delimiter.
pub open spec fn delimiter_of(s: Seq<char>) -> Option<char> {
    if s == seq!['\\', 't'] {
        Some('\t')
    } else if s == seq!['\\', 'n'] {
        Some('\n')
    } else if s == seq!['\\', 'r'] {
        Some('\r')
    } else if s.len() == 1 {
        Some(s[0])
    } else {
        None
    }
}

/// What [`parse_delimiter`] says of a text that stands for no delimiter.
pub open spec fn delimiter_error() -> Seq<char> {
    "the delimiter must be a single character, or an escape such as \\t (tab) or \\n (line feed)"@
}

/// Reads a delimiter from its command-line form.
pub fn parse_delimiter(s: &str) -> (r: Result<char, String>)
    ensures
        match r {
            Ok(c) => delimiter_of(s@) == Some(c),
            Err(m) => delimiter_of(s@).is_none() && m@ == delimiter_error(),
        },
{
    let chars = to_chars(s);
    if chars.len() == 2 && chars[0] == '\\' && (chars[1] == 't' || chars[1] == 'n' || chars[1]
        == 'r') {
        proof {
            assert(chars@ =~= seq!['\\', chars@[1]]);
        }
        if chars[1] == 't' {
            Ok('\t')
        } else if chars[1] == 'n' {
            Ok('\n')
        } else {
            Ok('\r')
        }
    } else if chars.len() == 1 {
        Ok(chars[0])
    } else {
        Err(
            "the delimiter must be a single character, or an escape such as \\t (tab) or \\n (line feed)".to_owned(),
        )
    }
}

/// The sink encoding that an extension in lower case names, if any.
pub open spec fn format_named(extension: Seq<char>) -> Option<OutputFormat> {
    if extension == "csv"@ {
        Some(OutputFormat::Csv)
    } else if extension == "json"@ {
        Some(OutputFormat::Json)
    } else if extension == "parquet"@ {
        Some(OutputFormat::Parquet)
    } else {
        None
    }
}

/// The sink encoding that an extension in lower case names, if any.
pub fn format_for_extension(extension: &str) -> (r: Option<OutputFormat>)
    ensures
        r == format_named(extension@),
{
    if str_equal(extension, "csv") {
        Some(OutputFormat::Csv)
    } else if str_equal(extension, "json") {
        Some(OutputFormat::Json)
    } else if str_equal(extension, "parquet") {
        Some(OutputFormat::Parquet)
    } else {
        None
    }
}

/// The sink encoding that the extension of a path names, whatever its case.
pub open spec fn format_of_path(path: Seq<char>) -> Option<OutputFormat> {
    match extension_of(path) {
        Some(extension) => format_named(lowercase(extension)),
        None => None,
    }
}

/// Guesses the sink encoding from the extension of the output path.
pub fn guess_format_from_extension(path: &str) -> (r: Option<OutputFormat>)
    ensures
        r == format_of_path(path@),
{
    match path_extension(path) {
        Some(extension) => {
            let lowered = to_lowercase(extension.as_str());
            format_for_extension(lowered.as_str())
        },
        None => None,
    }
}

/// What [`get_output_format`] says when neither a format nor a telling
/// extension is given.
pub open spec fn format_error(path: Seq<char>) -> Seq<char> {
    "cannot infer the format from the output path '"@ + path
        + "'; name the format with --format"@
}

/// The sink encoding of a run: the one asked for, else the one that the
/// output path's extension names.
pub fn get_output_format(format_opt: Option<OutputFormat>, output_path: &str) -> (r: Result<
    OutputFormat,
    String,
>)
    ensures
        match r {
            Ok(format) => format_opt == Some(format) || (format_opt.is_none() && format_of_path(
                output_path@,
            ) == Some(format)),
            Err(m) => format_opt.is_none() && format_of_path(output_path@).is_none() && m@
                == format_error(output_path@),
        },
{
    match format_opt {
        Some(format) => Ok(format),
        None => match guess_format_from_extension(output_path) {
            Some(format) => Ok(format),
            None => {
                let mut out: Vec<char> = Vec::new();
                push_chars(&mut out, "cannot infer the format from the output path '");
                push_chars(&mut out, output_path);
                push_chars(&mut out, "'; name the format with --format");
                Err(from_chars(&out))
            },
        },
    }
}

} // verus!
