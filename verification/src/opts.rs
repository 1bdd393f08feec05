//! The stand-alone option record of the CSV conversion command.

use vstd::prelude::*;

verus! {

/// The whole command line of the stand-alone CSV converter.
#[derive(Debug, Clone)]
pub struct Opts {
    pub cmd: SubCommand,
}

/// Its single subcommand.
#[derive(Debug, Clone)]
pub enum SubCommand {
    /// Convert CSV to JSON.
    Csv(CsvOpts),
}

/// Options of a CSV conversion run.
#[derive(Debug, Clone)]
pub struct CsvOpts {
    /// The input file; it must exist.
    pub input: String,
    /// The output file to write.
    pub output: String,
    /// The field delimiter.
    pub delimiter: char,
    /// Whether the first record is a header row.
    pub header: bool,
}

/// Accept an input file designator: it is accepted exactly when the caller
/// found it to exist.
pub fn verify_input_file(file_name: &str, exists: bool) -> (r: Result<String, &'static str>)
    ensures
        exists ==> (r matches Ok(s) && s@ == file_name@),
        !exists ==> (r matches Err(e) && e@ == "file not exist"@),
{
    if exists {
        Ok(file_name.to_owned())
    } else {
        Err("file not exist")
    }
}

} // verus!
