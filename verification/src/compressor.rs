//! The command line handed to the external compression tool.
//!
//! The compression itself is an opaque external operation: an invocation
//! of GhostScript on an input path and an output path, which either
//! writes the output file and succeeds or fails.  The library only
//! constructs the argument list; running the process is left to the
//! caller.

use vstd::prelude::*;
use vstd::string::StringExecFns;

verus! {

/// The argument list for a high-compression PDF run of GhostScript:
/// write a PDF, screen-quality settings, batch mode, the output file,
/// then the input file.
pub fn ghostscript_args(input_path: &str, output_path: &str) -> (r: Vec<String>)
    ensures
        r@.len() == 8,
        r@[0]@ == "-sDEVICE=pdfwrite"@,
        r@[1]@ == "-dPDFSETTINGS=/screen"@,
        r@[2]@ == "-dCompatibilityLevel=1.5"@,
        r@[3]@ == "-dNOPAUSE"@,
        r@[4]@ == "-dQUIET"@,
        r@[5]@ == "-dBATCH"@,
        r@[6]@ == "-sOutputFile="@ + output_path@,
        r@[7]@ == input_path@,
{
    let mut args: Vec<String> = Vec::new();
    args.push(String::from_str("-sDEVICE=pdfwrite"));
    args.push(String::from_str("-dPDFSETTINGS=/screen"));
    args.push(String::from_str("-dCompatibilityLevel=1.5"));
    args.push(String::from_str("-dNOPAUSE"));
    args.push(String::from_str("-dQUIET"));
    args.push(String::from_str("-dBATCH"));
    let mut out_arg = String::from_str("-sOutputFile=");
    out_arg.append(output_path);
    args.push(out_arg);
    args.push(String::from_str(input_path));
    args
}

} // verus!
