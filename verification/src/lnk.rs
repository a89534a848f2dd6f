//! `.lnk` shortcuts: their display names and the PowerShell script that makes
//! them through `WScript.Shell`.

use vstd::prelude::*;

use crate::text::{
    chars_of, last_index_of, lemma_last_index_of_bounds, push_all, push_str_chars, rfind_char,
    string_from_chars, sub_chars,
};

verus! {

/// A string with every single quote doubled (PowerShell's escape inside '…').
pub open spec fn ps_escape(s: Seq<char>) -> Seq<char>
    decreases s.len(),
{
    if s.len() == 0 {
        s
    } else {
        ps_escape(s.drop_last()) + if s.last() == '\'' {
            seq!['\'', '\'']
        } else {
            seq![s.last()]
        }
    }
}

/// A PowerShell single-quoted string literal holding `s`.
pub open spec fn ps_quote_spec(s: Seq<char>) -> Seq<char> {
    seq!['\''] + ps_escape(s) + seq!['\'']
}

fn push_escaped(out: &mut Vec<char>, s: &str)
    ensures
        final(out)@ == old(out)@ + ps_escape(s@),
{
    let cs = chars_of(s);
    let ghost start = out@;
    let mut i: usize = 0;
    while i < cs.len()
        invariant
            i <= cs.len(),
            cs@ == s@,
            out@ == start + ps_escape(cs@.take(i as int)),
        decreases cs.len() - i,
    {
        let c = cs[i];
        assert(cs@.take(i + 1).drop_last() =~= cs@.take(i as int));
        if c == '\'' {
            out.push('\'');
            out.push('\'');
        } else {
            out.push(c);
        }
        i = i + 1;
        assert(out@ =~= start + ps_escape(cs@.take(i as int)));
    }
    assert(cs@.take(cs.len() as int) =~= cs@);
}

/// `ps_quote`: wraps `s` in single quotes, doubling the quotes inside.
pub fn ps_quote(s: &str) -> (r: String)
    ensures
        r@ == ps_quote_spec(s@),
{
    let mut out: Vec<char> = Vec::new();
    out.push('\'');
    push_escaped(&mut out, s);
    out.push('\'');
    assert(out@ =~= ps_quote_spec(s@));
    string_from_chars(&out)
}

/// A file name without its last extension: what comes before the last dot, or
/// the whole name where there is no dot or only a leading one (`.gitignore`).
pub open spec fn stem_spec(name: Seq<char>) -> Seq<char> {
    match last_index_of(name, '.') {
        Some(i) => if i > 0 {
            name.take(i)
        } else {
            name
        },
        None => name,
    }
}

/// The display name of a shortcut to a file of this name.
pub open spec fn shortcut_name_spec(file_name: Seq<char>) -> Seq<char> {
    stem_spec(file_name) + " - 快捷方式.lnk"@
}

/// The display name of a shortcut to `file_name`: its stem and " - 快捷方式.lnk";
/// `报告.docx` gives `报告 - 快捷方式.lnk`.
pub fn shortcut_name_for(file_name: &str) -> (r: String)
    ensures
        r@ == shortcut_name_spec(file_name@),
{
    let cs = chars_of(file_name);
    proof {
        lemma_last_index_of_bounds(cs@, '.');
    }
    let mut out = match rfind_char(&cs, '.') {
        Some(i) => if i > 0 {
            sub_chars(&cs, 0, i)
        } else {
            sub_chars(&cs, 0, cs.len())
        },
        None => sub_chars(&cs, 0, cs.len()),
    };
    assert(out@ =~= stem_spec(file_name@));
    push_str_chars(&mut out, " - 快捷方式.lnk");
    string_from_chars(&out)
}

pub open spec fn script_header() -> Seq<char> {
    "$ws = New-Object -ComObject WScript.Shell\n"@
}

/// The script line that saves a shortcut at `out` pointing to `target`.
pub open spec fn script_line(target: Seq<char>, out: Seq<char>) -> Seq<char> {
    "$s = $ws.CreateShortcut("@ + ps_quote_spec(out) + "); $s.TargetPath = "@ + ps_quote_spec(
        target,
    ) + "; $s.Save()\n"@
}

/// The whole script for the (target, shortcut path) pairs.
pub open spec fn script_spec(pairs: Seq<(String, String)>) -> Seq<char>
    decreases pairs.len(),
{
    if pairs.len() == 0 {
        script_header()
    } else {
        script_spec(pairs.drop_last()) + script_line(pairs.last().0@, pairs.last().1@)
    }
}

/// The PowerShell script that creates a shortcut for each (target, shortcut
/// path) pair (`create_shortcuts`); none when there is nothing to create.
pub fn shortcut_script(pairs: &Vec<(String, String)>) -> (r: Option<String>)
    ensures
        pairs@.len() == 0 ==> r is None,
        pairs@.len() > 0 ==> (r matches Some(s) && s@ == script_spec(pairs@)),
{
    if pairs.len() == 0 {
        return None;
    }
    let mut out = chars_of("$ws = New-Object -ComObject WScript.Shell\n");
    let mut i: usize = 0;
    while i < pairs.len()
        invariant
            i <= pairs.len(),
            out@ == script_spec(pairs@.take(i as int)),
        decreases pairs.len() - i,
    {
        assert(pairs@.take(i + 1).drop_last() =~= pairs@.take(i as int));
        let (target, path) = &pairs[i];
        let ghost before = out@;
        push_str_chars(&mut out, "$s = $ws.CreateShortcut(");
        let q_out = ps_quote(path.as_str());
        let q_out_cs = chars_of(q_out.as_str());
        push_all(&mut out, &q_out_cs);
        push_str_chars(&mut out, "); $s.TargetPath = ");
        let q_target = ps_quote(target.as_str());
        let q_target_cs = chars_of(q_target.as_str());
        push_all(&mut out, &q_target_cs);
        push_str_chars(&mut out, "; $s.Save()\n");
        assert(out@ =~= before + script_line(target@, path@));
        i = i + 1;
    }
    assert(pairs@.take(pairs.len() as int) =~= pairs@);
    Some(string_from_chars(&out))
}

} // verus!
