//! Where the CLI keeps its files, and which XDR it speaks.

use crate::error::Error;
use crate::print;
use crate::print::{Mark, Print};
use vstd::prelude::*;

verus! {

/// Writes where the configuration lies, from the path that was looked up.
pub fn show_config_path(
    print: &mut Print,
    global_path: Result<String, String>,
) -> (r: Result<(), Error>)
    ensures
        match global_path {
            Ok(path) => r is Ok && final(print)@ == old(print)@ + print::line(
                Mark::Gear,
                "Config directory: "@ + path@,
            ),
            Err(message) => r == Err::<(), Error>(Error::Locator(message)) && final(print)@ == old(
                print,
            )@,
        },
{
    match global_path {
        Ok(path) => {
            print.gearln("Config directory: ".to_owned().concat(path.as_str()));
            Ok(())
        },
        Err(message) => Err(Error::Locator(message)),
    }
}

/// Writes where the data lies, from the path that was looked up.
pub fn show_data_path(
    print: &mut Print,
    data_path: Result<String, String>,
) -> (r: Result<(), Error>)
    ensures
        match data_path {
            Ok(path) => r is Ok && final(print)@ == old(print)@ + print::line(
                Mark::Dir,
                "Data directory: "@ + path@,
            ),
            Err(message) => r == Err::<(), Error>(Error::Data(message)) && final(print)@ == old(
                print,
            )@,
        },
{
    match data_path {
        Ok(path) => {
            print.dirln("Data directory: ".to_owned().concat(path.as_str()));
            Ok(())
        },
        Err(message) => Err(Error::Data(message)),
    }
}

/// The revision of the XDR definitions that `stellar_xdr` was generated from.
pub open spec fn xdr_revision() -> Seq<char> {
    "68fa1ac55692f68ad2a2ca549d0a283273554439"@
}

/// Reads `stellar_xdr::VERSION`. Trusted: its `xdr` field is the revision that the
/// crate was released with.
#[verifier::external_body]
fn xdr_version() -> (r: String)
    ensures
        r@ == xdr_revision(),
{
    stellar_xdr::VERSION.xdr.to_string()
}

/// Writes which XDR definitions the CLI speaks.
pub fn show_xdr_version(print: &mut Print)
    ensures
        final(print)@ == old(print)@ + print::line(Mark::Info, "XDR version: "@ + xdr_revision()),
{
    print.infoln("XDR version: ".to_owned().concat(xdr_version().as_str()));
}

} // verus!
