//! The names of the files that hold a layer's archives and indices.
//!
//! The archives of a layer share a stem. Sub-file 0 and sub-file 1 both name
//! the file with the bare stem; any other sub-file appends its number in
//! decimal.

use vstd::prelude::*;
use vstd::string::StringExecFns;
use crate::archive::IndexPolicy;
use crate::compositor::Layer;

verus! {

/// The character of a decimal digit.
pub open spec fn digit_char(d: int) -> char {
    if d == 0 {
        '0'
    } else if d == 1 {
        '1'
    } else if d == 2 {
        '2'
    } else if d == 3 {
        '3'
    } else if d == 4 {
        '4'
    } else if d == 5 {
        '5'
    } else if d == 6 {
        '6'
    } else if d == 7 {
        '7'
    } else if d == 8 {
        '8'
    } else {
        '9'
    }
}

/// A number in decimal, without leading zeros.
pub open spec fn spec_decimal(n: u8) -> Seq<char> {
    if n >= 100 {
        seq![digit_char(n as int / 100), digit_char(n as int / 10 % 10), digit_char(n as int % 10)]
    } else if n >= 10 {
        seq![digit_char(n as int / 10), digit_char(n as int % 10)]
    } else {
        seq![digit_char(n as int)]
    }
}

/// What a sub-file number adds to the stem: nothing for 0 and 1, else the
/// number in decimal.
pub open spec fn spec_sub_file_tag(sub_file: u8) -> Seq<char> {
    if sub_file <= 1 {
        Seq::empty()
    } else {
        spec_decimal(sub_file)
    }
}

/// The name of a file: directory, stem, the sub-file's tag, a dot and the
/// suffix, one behind the other.
pub open spec fn spec_archive_file_name(
    dir: Seq<char>,
    stem: Seq<char>,
    sub_file: u8,
    suffix: Seq<char>,
) -> Seq<char> {
    dir + stem + spec_sub_file_tag(sub_file) + seq!['.'] + suffix
}

/// The text of one decimal digit.
fn digit_text(d: u8) -> (text: &'static str)
    requires
        d < 10,
    ensures
        text@ == seq![digit_char(d as int)],
{
    proof {
        reveal_strlit("0");
        reveal_strlit("1");
        reveal_strlit("2");
        reveal_strlit("3");
        reveal_strlit("4");
        reveal_strlit("5");
        reveal_strlit("6");
        reveal_strlit("7");
        reveal_strlit("8");
        reveal_strlit("9");
    }
    let text = if d == 0 {
        "0"
    } else if d == 1 {
        "1"
    } else if d == 2 {
        "2"
    } else if d == 3 {
        "3"
    } else if d == 4 {
        "4"
    } else if d == 5 {
        "5"
    } else if d == 6 {
        "6"
    } else if d == 7 {
        "7"
    } else if d == 8 {
        "8"
    } else {
        "9"
    };
    text
}

/// Appends `n` in decimal.
fn append_decimal(out: &mut String, n: u8)
    ensures
        final(out)@ == old(out)@ + spec_decimal(n),
{
    if n >= 100 {
        out.append(digit_text(n / 100));
    }
    if n >= 10 {
        out.append(digit_text(n / 10 % 10));
    }
    out.append(digit_text(n % 10));
}

/// Builds the name of the file with the given suffix that belongs to
/// sub-file `sub_file` of the archives with the given stem.
pub fn archive_file_name(dir: &str, stem: &str, sub_file: u8, suffix: &str) -> (name: String)
    ensures
        name@ == spec_archive_file_name(dir@, stem@, sub_file, suffix@),
{
    proof {
        reveal_strlit(".");
    }
    let mut name = dir.to_owned();
    name.append(stem);
    if sub_file > 1 {
        append_decimal(&mut name, sub_file);
    }
    name.append(".");
    name.append(suffix);
    name
}

/// The suffix of archive files.
pub const ARCHIVE_SUFFIX: &'static str = "wzl";

/// The suffix of the index file that a policy calls for: `idx` for the
/// primary index, `wzx` for the secondary one.
pub fn index_suffix(policy: IndexPolicy) -> (text: &'static str)
    ensures
        text@ == (match policy {
            IndexPolicy::Primary => "idx"@,
            IndexPolicy::Recover => "wzx"@,
        }),
{
    match policy {
        IndexPolicy::Primary => "idx",
        IndexPolicy::Recover => "wzx",
    }
}

/// The stem of the archives of a layer.
pub open spec fn spec_stem(layer: Layer) -> Seq<char> {
    match layer {
        Layer::Back => "tiles"@,
        Layer::Middle => "smTiles"@,
        Layer::Object => "objects"@,
    }
}

/// The stem of the archives of a layer. Its first letter is the layer's
/// category byte.
pub fn stem(layer: Layer) -> (text: &'static str)
    ensures
        text@ == spec_stem(layer),
        text@.len() > 0,
        text@[0] == layer.spec_category() as char,
{
    proof {
        reveal_strlit("tiles");
        reveal_strlit("smTiles");
        reveal_strlit("objects");
    }
    match layer {
        Layer::Back => "tiles",
        Layer::Middle => "smTiles",
        Layer::Object => "objects",
    }
}

} // verus!
