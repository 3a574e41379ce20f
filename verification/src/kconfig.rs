//! Making the kernel's configuration known to Rust code: the `.config` file
//! as flags for the compiler and as a module of constants.

use vstd::prelude::*;
use vstd::string::StringExecFns;
use crate::pattern::{captures, captures_view, group, group_text, regex_captures};

verus! {

/// A setting that is switched on.
pub open spec fn bool_pattern() -> Seq<char> {
    "^(CONFIG_.*)=y$"@
}

/// A setting with a hexadecimal value.
pub open spec fn hex_pattern() -> Seq<char> {
    "^(CONFIG_.*)=(0x[0-9a-fA-F]+)$"@
}

/// A setting with a decimal value.
pub open spec fn int_pattern() -> Seq<char> {
    "^(CONFIG_.*)=(-?[1-9][0-9]*)$"@
}

/// A setting with a string value.
pub open spec fn str_pattern() -> Seq<char> {
    "^(CONFIG_.*)=(\".*\")$"@
}

/// The name and the value that a pattern with two groups captured.
pub open spec fn pair_of(caps: Option<Seq<Option<Seq<char>>>>) -> Option<(Seq<char>, Seq<char>)> {
    match caps {
        Some(gs) => match (group_text(gs, 1), group_text(gs, 2)) {
            (Some(name), Some(value)) => Some((name, value)),
            _ => None,
        },
        None => None,
    }
}

/// The instruction to the build that switches a flag on.
pub open spec fn cfg_text(caps: Option<Seq<Option<Seq<char>>>>) -> Option<Seq<char>> {
    match caps {
        Some(gs) => match group_text(gs, 1) {
            Some(name) => Some("cargo:rustc-cfg="@ + name),
            None => None,
        },
        None => None,
    }
}

/// The instruction to the build for what the pattern of switched-on
/// settings captured in a line, if it captured anything.
pub fn cfg_line(caps: Option<Vec<Option<String>>>) -> (r: Option<String>)
    ensures
        match r {
            Some(s) => cfg_text(captures_view(caps)) == Some(s@),
            None => cfg_text(captures_view(caps)) is None,
        },
{
    match caps {
        Some(gs) => match group(&gs, 1) {
            Some(name) => {
                let mut out = String::new();
                out.append("cargo:rustc-cfg=");
                out.append(name.as_str());
                assert(out@ =~= "cargo:rustc-cfg="@ + name@);
                Some(out)
            },
            None => None,
        },
        None => None,
    }
}

/// The instruction to the build for a line of the configuration, where the
/// line switches a setting on.
pub fn bool_kconfig_line(line: &str) -> (r: Option<String>)
    ensures
        match r {
            Some(s) => cfg_text(regex_captures(bool_pattern(), line@)) == Some(s@),
            None => cfg_text(regex_captures(bool_pattern(), line@)) is None,
        },
{
    cfg_line(captures("^(CONFIG_.*)=y$", line))
}

pub open spec fn strings_view(ss: Seq<String>) -> Seq<Seq<char>> {
    ss.map_values(|s: String| s@)
}

/// The instructions for the first `k` lines.
pub open spec fn cfg_lines_upto(lines: Seq<Seq<char>>, k: nat) -> Seq<Seq<char>>
    decreases k,
{
    if k == 0 || k > lines.len() {
        Seq::empty()
    } else {
        match cfg_text(regex_captures(bool_pattern(), lines[k - 1])) {
            Some(s) => cfg_lines_upto(lines, (k - 1) as nat).push(s),
            None => cfg_lines_upto(lines, (k - 1) as nat),
        }
    }
}

/// The instructions to the build for a whole configuration: one for each
/// line that switches a setting on, in order.
pub fn export_bool_kconfig(lines: &Vec<String>) -> (r: Vec<String>)
    ensures
        strings_view(r@) == cfg_lines_upto(strings_view(lines@), lines@.len()),
{
    let mut out: Vec<String> = Vec::new();
    let mut i: usize = 0;
    assert(strings_view(out@) =~= Seq::empty());
    while i < lines.len()
        invariant
            i <= lines.len(),
            strings_view(out@) == cfg_lines_upto(strings_view(lines@), i as nat),
        decreases lines.len() - i,
    {
        let ghost before = strings_view(out@);
        match bool_kconfig_line(lines[i].as_str()) {
            Some(s) => {
                out.push(s);
                assert(strings_view(out@) =~= before.push(s@));
            },
            None => {},
        }
        i = i + 1;
    }
    out
}

/// A constant of the generated module.
pub open spec fn const_text(name: Seq<char>, ty: Seq<char>, value: Seq<char>) -> Seq<char> {
    "    #[allow(dead_code)]\n    pub const "@ + name + ": "@ + ty + " = "@ + value + ";\n"@
}

/// What a line of the configuration adds to the module, given what the
/// three patterns captured in it. Hexadecimal values are taken as unsigned,
/// decimal values as signed; a line that fits none adds nothing.
pub open spec fn entry_text(
    hex: Option<Seq<Option<Seq<char>>>>,
    dec: Option<Seq<Option<Seq<char>>>>,
    text: Option<Seq<Option<Seq<char>>>>,
) -> Seq<char> {
    if hex is Some {
        match pair_of(hex) {
            Some((name, value)) => const_text(name, "usize"@, value),
            None => Seq::empty(),
        }
    } else if dec is Some {
        match pair_of(dec) {
            Some((name, value)) => const_text(name, "isize"@, value),
            None => Seq::empty(),
        }
    } else {
        match pair_of(text) {
            Some((name, value)) => const_text(name, "&'static str"@, value),
            None => Seq::empty(),
        }
    }
}

fn push_const(out: &mut String, caps: &Vec<Option<String>>, ty: &str)
    ensures
        final(out)@ == old(out)@ + (match pair_of(Some(crate::pattern::groups_view(caps@))) {
            Some((name, value)) => const_text(name, ty@, value),
            None => Seq::empty(),
        }),
{
    match (group(caps, 1), group(caps, 2)) {
        (Some(name), Some(value)) => {
            out.append("    #[allow(dead_code)]\n    pub const ");
            out.append(name.as_str());
            out.append(": ");
            out.append(ty);
            out.append(" = ");
            out.append(value.as_str());
            out.append(";\n");
            assert(final(out)@ =~= old(out)@ + const_text(name@, ty@, value@));
        },
        _ => {
            assert(final(out)@ =~= old(out)@ + Seq::<char>::empty());
        },
    }
}

/// Appends to `out` what a line of the configuration adds to the module,
/// given what the three patterns captured in it.
pub fn push_entry(
    out: &mut String,
    hex: Option<Vec<Option<String>>>,
    dec: Option<Vec<Option<String>>>,
    text: Option<Vec<Option<String>>>,
)
    ensures
        final(out)@ == old(out)@ + entry_text(
            captures_view(hex),
            captures_view(dec),
            captures_view(text),
        ),
{
    match hex {
        Some(caps) => push_const(out, &caps, "usize"),
        None => match dec {
            Some(caps) => push_const(out, &caps, "isize"),
            None => match text {
                Some(caps) => push_const(out, &caps, "&'static str"),
                None => {
                    assert(final(out)@ =~= old(out)@ + Seq::<char>::empty());
                },
            },
        },
    }
}

/// What the line `line` adds to the module.
pub open spec fn line_text(line: Seq<char>) -> Seq<char> {
    entry_text(
        regex_captures(hex_pattern(), line),
        regex_captures(int_pattern(), line),
        regex_captures(str_pattern(), line),
    )
}

/// What the first `k` lines add to the module.
pub open spec fn entries_upto(lines: Seq<Seq<char>>, k: nat) -> Seq<char>
    decreases k,
{
    if k == 0 || k > lines.len() {
        Seq::empty()
    } else {
        entries_upto(lines, (k - 1) as nat) + line_text(lines[k - 1])
    }
}

/// The module of constants for a whole configuration.
pub open spec fn kconfig_mod(lines: Seq<Seq<char>>) -> Seq<char> {
    "pub mod kconfig {\n"@ + entries_upto(lines, lines.len()) + "}\n"@
}

/// Writes the module `kconfig` with one constant for each setting that has a
/// hexadecimal, a decimal or a string value.
pub fn build_kconfig_mod(lines: &Vec<String>) -> (r: String)
    ensures
        r@ == kconfig_mod(strings_view(lines@)),
{
    let mut out = String::new();
    out.append("pub mod kconfig {\n");
    let mut i: usize = 0;
    assert(out@ =~= "pub mod kconfig {\n"@ + entries_upto(strings_view(lines@), 0));
    while i < lines.len()
        invariant
            i <= lines.len(),
            out@ == "pub mod kconfig {\n"@ + entries_upto(strings_view(lines@), i as nat),
        decreases lines.len() - i,
    {
        let line = lines[i].as_str();
        let hex = captures("^(CONFIG_.*)=(0x[0-9a-fA-F]+)$", line);
        let dec = captures("^(CONFIG_.*)=(-?[1-9][0-9]*)$", line);
        let text = captures("^(CONFIG_.*)=(\".*\")$", line);
        push_entry(&mut out, hex, dec, text);
        i = i + 1;
        assert(out@ =~= "pub mod kconfig {\n"@ + entries_upto(strings_view(lines@), i as nat));
    }
    out.append("}\n");
    out
}

} // verus!
