//! The rules of an unpacking pass: which applications are scanned, what is
//! done with each candidate, and where its bytes are written.

use vstd::prelude::*;
use vstd::string::*;
use crate::dex_parser::tables::ParseError;
use crate::dex_parser::ParsedDexFile;
use crate::text::{chars_of, push_char};

verus! {

/// The seconds to wait after process specialisation before the scan, so
/// that a packer has finished unpacking.
pub const SCAN_DELAY_SECS: u64 = 10;

/// What `str::trim` leaves of a text.
pub uninterp spec fn trimmed(s: Seq<char>) -> Seq<char>;

/// Removes leading and trailing white space with `str::trim`.
///
/// Trusted: the result is a function of the text alone.
#[verifier::external_body]
fn trim_text(s: &str) -> (r: String)
    ensures
        r@ == trimmed(s@),
{
    s.trim().to_owned()
}

/// A line without the carriage return that may end it.
pub open spec fn without_cr(line: Seq<char>) -> Seq<char> {
    if line.len() > 0 && line.last() == '\r' {
        line.drop_last()
    } else {
        line
    }
}

/// The package name that a line of the whitelist names: the line without
/// its line ending and the white space around it.
pub open spec fn line_entry(line: Seq<char>) -> Seq<char> {
    trimmed(without_cr(line))
}

/// Whether the line that ends before position `end` of `content` names
/// `package`. A line starts after the line feed before it.
pub open spec fn line_names(content: Seq<char>, start: int, end: int, package: Seq<char>) -> bool {
    &&& 0 <= start <= end <= content.len()
    &&& (start == 0 || content[start - 1] == '\n')
    &&& (end == content.len() || content[end] == '\n')
    &&& forall|i: int| start <= i < end ==> content[i] != '\n'
    &&& line_entry(content.subrange(start, end)) == package
}

/// Whether the whitelist allows `package`: some line names it. Blank lines
/// and lines that start with `#` name nothing.
pub open spec fn spec_whitelisted(content: Seq<char>, package: Seq<char>) -> bool {
    &&& package.len() > 0
    &&& package[0] != '#'
    &&& exists|start: int, end: int| #[trigger] line_names(content, start, end, package)
}

/// Whether two texts are the same.
fn same_text(a: &Vec<char>, b: &Vec<char>) -> (r: bool)
    ensures
        r == (a@ == b@),
{
    if a.len() != b.len() {
        return false;
    }
    let mut i: usize = 0;
    while i < a.len()
        invariant
            a.len() == b.len(),
            i <= a.len(),
            forall|k: int| 0 <= k < i ==> a@[k] == b@[k],
        decreases a.len() - i,
    {
        if a[i] != b[i] {
            return false;
        }
        i += 1;
    }
    assert(a@ =~= b@);
    true
}

/// Whether the line `content[start..end]` names `package`.
fn line_matches(content: &Vec<char>, start: usize, end: usize, package: &Vec<char>) -> (r: bool)
    requires
        start <= end <= content.len(),
    ensures
        r == (line_entry(content@.subrange(start as int, end as int)) == package@),
{
    let mut stop = end;
    if stop > start && content[stop - 1] == '\r' {
        stop = stop - 1;
    }
    let mut line = String::new();
    let mut i = start;
    while i < stop
        invariant
            start <= i <= stop <= end <= content.len(),
            line@ == content@.subrange(start as int, i as int),
        decreases stop - i,
    {
        push_char(&mut line, content[i]);
        assert(content@.subrange(start as int, i + 1) == content@.subrange(
            start as int,
            i as int,
        ).push(content@[i as int]));
        i += 1;
    }
    proof {
        let whole = content@.subrange(start as int, end as int);
        assert(without_cr(whole) =~= content@.subrange(start as int, stop as int));
    }
    let entry = chars_of(trim_text(line.as_str()).as_str());
    same_text(&entry, package)
}

/// Decides whether the whitelist allows `package`.
///
/// The whitelist holds one package name on each line; white space around a
/// name is ignored, and so are blank lines and lines that start with `#`.
pub fn whitelist_contains(content: &str, package: &str) -> (r: bool)
    ensures
        r == spec_whitelisted(content@, package@),
{
    let text = chars_of(content);
    let name = chars_of(package);
    if name.len() == 0 || name[0] == '#' {
        return false;
    }
    let n = text.len();
    let mut start: usize = 0;
    let mut end: usize = 0;
    loop
        invariant
            text@ == content@,
            name@ == package@,
            name@.len() > 0,
            name@[0] != '#',
            n == text.len(),
            start <= end <= n,
            start == 0 || text@[start - 1] == '\n',
            forall|i: int| start <= i < end ==> text@[i] != '\n',
            forall|s: int, e: int| e < start ==> !#[trigger] line_names(text@, s, e, name@),
        decreases n - end,
    {
        if end == n || text[end] == '\n' {
            if line_matches(&text, start, end, &name) {
                assert(line_names(text@, start as int, end as int, name@));
                return true;
            }
            if end == n {
                assert forall|s: int, e: int| !#[trigger] line_names(text@, s, e, name@) by {}
                return false;
            }
            end = end + 1;
            start = end;
        } else {
            end = end + 1;
        }
    }
}

/// What is done with a candidate once it has been parsed.
#[derive(Clone, Copy, Debug, PartialEq, Eq, Structural)]
pub struct CandidatePlan {
    /// Run the resolver on the candidate's methods.
    pub resolve: bool,
    /// Write the candidate's bytes to disk.
    pub dump: bool,
}

/// What is done with a candidate: one that does not parse is left alone;
/// one that parses is written to disk, after its methods have been resolved
/// if that is asked for and it has any.
pub open spec fn spec_plan(parsed: bool, methods: nat, force_resolve: bool) -> CandidatePlan {
    CandidatePlan { resolve: parsed && methods > 0 && force_resolve, dump: parsed }
}

/// Decides what is done with a candidate, from the outcome of parsing it.
pub fn plan_candidate(parsed: &Result<ParsedDexFile, ParseError>, force_resolve: bool) -> (p:
    CandidatePlan)
    ensures
        p == spec_plan(
            parsed is Ok,
            match parsed {
                Ok(d) => d.methods@.len(),
                Err(_) => 0,
            },
            force_resolve,
        ),
{
    match parsed {
        Ok(d) => CandidatePlan { resolve: d.methods.len() > 0 && force_resolve, dump: true },
        Err(_) => CandidatePlan { resolve: false, dump: false },
    }
}

/// The digit for a value below sixteen.
pub open spec fn digit_char(d: int) -> char {
    "0123456789abcdef"@[d]
}

/// The decimal digits of `n`, most significant first, without leading
/// zeros.
pub open spec fn decimal(n: nat) -> Seq<char>
    decreases n,
{
    if n < 10 {
        seq![digit_char(n as int)]
    } else {
        decimal(n / 10).push(digit_char((n % 10) as int))
    }
}

/// The hexadecimal digits of `n` in lower case, most significant first,
/// without leading zeros.
pub open spec fn hexadecimal(n: nat) -> Seq<char>
    decreases n,
{
    if n < 16 {
        seq![digit_char(n as int)]
    } else {
        hexadecimal(n / 16).push(digit_char((n % 16) as int))
    }
}

/// Appends the digit for a value below sixteen.
fn push_digit(out: &mut String, d: usize)
    requires
        d < 16,
    ensures
        final(out)@ == old(out)@.push(digit_char(d as int)),
{
    proof {
        reveal_strlit("0123456789abcdef");
    }
    push_char(out, "0123456789abcdef".get_char(d));
}

/// Appends the decimal digits of `n`.
fn push_decimal(out: &mut String, n: usize)
    ensures
        final(out)@ == old(out)@ + decimal(n as nat),
    decreases n,
{
    if n >= 10 {
        push_decimal(out, n / 10);
    }
    push_digit(out, n % 10);
}

/// Appends the hexadecimal digits of `n`.
fn push_hexadecimal(out: &mut String, n: usize)
    ensures
        final(out)@ == old(out)@ + hexadecimal(n as nat),
    decreases n,
{
    if n >= 16 {
        push_hexadecimal(out, n / 16);
    }
    push_digit(out, n % 16);
}

/// The name of the file that holds candidate number `index`, found at
/// `addr`: `dex_`, the number in decimal, `_`, the address in hexadecimal,
/// `.dex`.
pub open spec fn spec_dump_file_name(index: nat, addr: nat) -> Seq<char> {
    "dex_"@ + decimal(index) + "_"@ + hexadecimal(addr) + ".dex"@
}

/// Builds the name of the file that holds candidate number `index`.
pub fn dump_file_name(index: usize, addr: usize) -> (name: String)
    ensures
        name@ == spec_dump_file_name(index as nat, addr as nat),
{
    let mut name = String::new();
    name.append("dex_");
    push_decimal(&mut name, index);
    name.append("_");
    push_hexadecimal(&mut name, addr);
    name.append(".dex");
    name
}

/// The directory that holds the dumps of `package`.
pub open spec fn spec_dump_dir(package: Seq<char>) -> Seq<char> {
    "/data/data/"@ + package + "/files/rust_dumps"@
}

/// Builds the path of the directory that holds the dumps of `package`.
pub fn dump_dir(package: &str) -> (dir: String)
    ensures
        dir@ == spec_dump_dir(package@),
{
    let mut dir = String::new();
    dir.append("/data/data/");
    dir.append(package);
    dir.append("/files/rust_dumps");
    dir
}

} // verus!
