//! The firmware checkout that the images under test are built from.

use vstd::prelude::*;

verus! {

/// The environment variable that points at a checkout in another place.
pub fn override_variable() -> (r: &'static str)
    ensures
        r@ == "TOWER_FIRMWARE_DIR"@,
{
    "TOWER_FIRMWARE_DIR"
}

/// Where the checkout is by default, from the harness's own directory: next to it.
pub fn sibling_checkout() -> (r: &'static str)
    ensures
        r@ == "../firmware"@,
{
    "../firmware"
}

/// The file by which a checkout is told from any other directory.
pub fn build_file() -> (r: &'static str)
    ensures
        r@ == "justfile"@,
{
    "justfile"
}

/// The directory to look for the checkout in: the configured one, and where there is none the
/// sibling.
pub fn firmware_candidate<D>(configured: Option<D>, sibling: D) -> (r: D)
    ensures
        r == (match configured {
            Some(dir) => dir,
            None => sibling,
        }),
{
    match configured {
        Some(dir) => dir,
        None => sibling,
    }
}

/// The message for a directory that holds no checkout.
pub open spec fn no_checkout_message(dir: Seq<char>) -> Seq<char> {
    "HIL: no tower-firmware checkout at "@ + dir + " (its "@ + "justfile"@
        + " is missing). The default is a `firmware` checkout next to this repo (the TOWER control-plane layout); set "@
        + "TOWER_FIRMWARE_DIR"@ + "=/path/to/tower-firmware for any other layout."@
}

/// The checkout in `dir`, which reads `shown`: `dir` itself where it has a justfile, so that a
/// wrong path fails here with instructions.
pub fn firmware_dir<D>(dir: D, shown: &str, has_justfile: bool) -> (r: Result<D, String>)
    ensures
        if has_justfile {
            r == Ok::<D, String>(dir)
        } else {
            r matches Err(m) && m@ == no_checkout_message(shown@)
        },
{
    if has_justfile {
        Ok(dir)
    } else {
        let mut m: String = "HIL: no tower-firmware checkout at ".to_owned();
        m.append(shown);
        m.append(" (its ");
        m.append(build_file());
        m.append(
            " is missing). The default is a `firmware` checkout next to this repo (the TOWER control-plane layout); set ",
        );
        m.append(override_variable());
        m.append("=/path/to/tower-firmware for any other layout.");
        Err(m)
    }
}

} // verus!
