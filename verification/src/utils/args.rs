use vstd::prelude::*;

verus! {

/// What the command line says.
#[derive(Debug, Clone)]
pub struct Cli {
    /// Where the playlist is: a URL or the path of a file.
    pub src: String,
    /// The name of the output file, without extension.
    pub dest: Option<String>,
    /// The path of the configuration file.
    pub config: Option<String>,
    /// The base against which relative segment URLs are resolved.
    pub base_url: Option<String>,
    /// Request headers, each in the form `Key:Value`.
    pub headers: Vec<String>,
}

} // verus!
