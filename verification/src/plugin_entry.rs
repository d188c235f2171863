//! The plugin entry descriptor: the fixed-layout record the host looks
//! up under a well-known exported symbol to bootstrap the plugin.
//!
//! The record holds the pass-manager ABI version (obtained from the
//! host toolchain at build time, never hardcoded: the host refuses to
//! load the plugin on a mismatch), the plugin's name and version as
//! null-terminated byte strings, and the registrar the host invokes
//! exactly once with its pass builder. The registrar function pointer
//! and the exported symbol are the native face of the record and stay
//! outside the verified core.
//!
//! Building the record starts from the plugin declaration's arguments:
//! a name argument followed by a version argument. Malformed metadata
//! is a registration-contract violation, reported exactly.

use vstd::prelude::*;

verus! {

/// The fixed-layout record describing this plugin to the host.
pub struct PassPluginLibraryInfo {
    /// The host's pass-manager ABI version, the principal
    /// compatibility gate.
    pub api_version: u32,
    /// Plugin name, null-terminated.
    pub plugin_name: Vec<u8>,
    /// Plugin version, null-terminated.
    pub plugin_version: Vec<u8>,
}

impl PassPluginLibraryInfo {
    /// The name and version strings end with the null byte the native
    /// side requires.
    pub open spec fn wf(self) -> bool {
        &&& self.plugin_name@.len() > 0
        &&& self.plugin_name@.last() == 0u8
        &&& self.plugin_version@.len() > 0
        &&& self.plugin_version@.last() == 0u8
    }
}

/// One argument of the plugin declaration: a key and a string value.
pub struct PluginArg {
    /// The argument's key.
    pub key: Vec<u8>,
    /// The argument's string value.
    pub value: Vec<u8>,
}

/// Malformed plugin metadata: a registration-contract violation the
/// declaration site reports at build time.
#[derive(Clone, Copy, PartialEq, Eq, Structural, Debug)]
pub enum PluginArgsError {
    /// The declaration carries no name and version arguments.
    MissingArgs,
    /// The first argument is not `name = "..."`.
    ExpectedNameArg,
    /// The second argument is not `version = "..."`.
    ExpectedVersionArg,
}

/// The key of the name argument, the ASCII bytes of `name`.
pub open spec fn name_key() -> Seq<u8> {
    seq![110u8, 97u8, 109u8, 101u8]
}

/// The key of the version argument, the ASCII bytes of `version`.
pub open spec fn version_key() -> Seq<u8> {
    seq![118u8, 101u8, 114u8, 115u8, 105u8, 111u8, 110u8]
}

fn is_name_key(s: &[u8]) -> (r: bool)
    ensures
        r == (s@ == name_key()),
{
    if s.len() != 4 {
        proof {
            assert(name_key().len() == 4);
        }
        return false;
    }
    let r = s[0] == 110 && s[1] == 97 && s[2] == 109 && s[3] == 101;
    proof {
        if r {
            assert(s@ =~= name_key());
        } else {
            if s@ == name_key() {
                assert(s@[0] == 110u8 && s@[1] == 97u8 && s@[2] == 109u8 && s@[3] == 101u8);
            }
        }
    }
    r
}

fn is_version_key(s: &[u8]) -> (r: bool)
    ensures
        r == (s@ == version_key()),
{
    if s.len() != 7 {
        proof {
            assert(version_key().len() == 7);
        }
        return false;
    }
    let r = s[0] == 118 && s[1] == 101 && s[2] == 114 && s[3] == 115 && s[4] == 105 && s[5]
        == 111 && s[6] == 110;
    proof {
        if r {
            assert(s@ =~= version_key());
        } else {
            if s@ == version_key() {
                assert(s@[0] == 118u8 && s@[1] == 101u8 && s@[2] == 114u8 && s@[3] == 115u8
                    && s@[4] == 105u8 && s@[5] == 111u8 && s@[6] == 110u8);
            }
        }
    }
    r
}

/// Copies a byte string into an owned vector.
pub fn copy_bytes(s: &[u8]) -> (r: Vec<u8>)
    ensures
        r@ == s@,
{
    let mut r: Vec<u8> = Vec::new();
    let mut i: usize = 0;
    while i < s.len()
        invariant
            i <= s@.len(),
            r@ == s@.subrange(0, i as int),
        decreases s@.len() - i,
    {
        r.push(s[i]);
        proof {
            assert(r@ =~= s@.subrange(0, i + 1));
        }
        i = i + 1;
    }
    proof {
        assert(r@ =~= s@);
    }
    r
}

fn null_terminated(s: &[u8]) -> (r: Vec<u8>)
    ensures
        r@ == s@.push(0u8),
{
    let mut r = copy_bytes(s);
    r.push(0);
    r
}

/// Extracts the plugin's name and version from the declaration's
/// arguments: the first argument must carry the name, the second the
/// version. Returns nothing when the arguments run out before both
/// were seen, and the exact shape violation otherwise.
pub fn parse_plugin_args(args: &Vec<PluginArg>) -> (r: Option<
    Result<(Vec<u8>, Vec<u8>), PluginArgsError>,
>)
    ensures
        args@.len() == 0 ==> r is None,
        args@.len() >= 1 && args@[0].key@ != name_key() ==> r == Some(
            Result::<(Vec<u8>, Vec<u8>), PluginArgsError>::Err(PluginArgsError::ExpectedNameArg),
        ),
        args@.len() == 1 && args@[0].key@ == name_key() ==> r is None,
        args@.len() >= 2 && args@[0].key@ == name_key() && args@[1].key@ != version_key() ==> r
            == Some(
            Result::<(Vec<u8>, Vec<u8>), PluginArgsError>::Err(
                PluginArgsError::ExpectedVersionArg,
            ),
        ),
        args@.len() >= 2 && args@[0].key@ == name_key() && args@[1].key@ == version_key() ==> (
        r matches Some(res) && res matches Ok(nv) && nv.0@ == args@[0].value@ && nv.1@
            == args@[1].value@),
{
    if args.len() == 0 {
        return Option::None;
    }
    if !is_name_key(args[0].key.as_slice()) {
        return Some(Err(PluginArgsError::ExpectedNameArg));
    }
    let name = copy_bytes(args[0].value.as_slice());
    if args.len() == 1 {
        return Option::None;
    }
    if !is_version_key(args[1].key.as_slice()) {
        return Some(Err(PluginArgsError::ExpectedVersionArg));
    }
    let version = copy_bytes(args[1].value.as_slice());
    Some(Ok((name, version)))
}

/// Builds the entry descriptor from a plugin name and version,
/// null-terminating both strings, and the ABI version the host
/// reports.
pub fn make_plugin_info(name: &[u8], version: &[u8], api_version: u32) -> (r:
    PassPluginLibraryInfo)
    ensures
        r.api_version == api_version,
        r.plugin_name@ == name@.push(0u8),
        r.plugin_version@ == version@.push(0u8),
        r.wf(),
{
    PassPluginLibraryInfo {
        api_version,
        plugin_name: null_terminated(name),
        plugin_version: null_terminated(version),
    }
}

/// Builds the entry descriptor straight from the plugin declaration's
/// arguments: missing arguments are the missing-args violation, shape
/// violations are passed through, and on success the descriptor holds
/// the declared name and version, null-terminated, with the host's
/// ABI version.
pub fn plugin_info_from_args(args: &Vec<PluginArg>, api_version: u32) -> (r: Result<
    PassPluginLibraryInfo,
    PluginArgsError,
>)
    ensures
        args@.len() == 0 ==> r == Result::<PassPluginLibraryInfo, PluginArgsError>::Err(
            PluginArgsError::MissingArgs,
        ),
        args@.len() >= 1 && args@[0].key@ != name_key() ==> r == Result::<
            PassPluginLibraryInfo,
            PluginArgsError,
        >::Err(PluginArgsError::ExpectedNameArg),
        args@.len() == 1 && args@[0].key@ == name_key() ==> r == Result::<
            PassPluginLibraryInfo,
            PluginArgsError,
        >::Err(PluginArgsError::MissingArgs),
        args@.len() >= 2 && args@[0].key@ == name_key() && args@[1].key@ != version_key() ==> r
            == Result::<PassPluginLibraryInfo, PluginArgsError>::Err(
            PluginArgsError::ExpectedVersionArg,
        ),
        args@.len() >= 2 && args@[0].key@ == name_key() && args@[1].key@ == version_key() ==> (
        r matches Ok(info) && info.api_version == api_version && info.plugin_name@ == args@[0]
            .value@.push(0u8) && info.plugin_version@ == args@[1].value@.push(0u8) && info.wf()),
{
    match parse_plugin_args(args) {
        Option::None => Err(PluginArgsError::MissingArgs),
        Some(Err(e)) => Err(e),
        Some(Ok((name, version))) => Ok(
            make_plugin_info(name.as_slice(), version.as_slice(), api_version),
        ),
    }
}

} // verus!
