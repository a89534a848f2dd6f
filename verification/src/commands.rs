//! The decisions behind the staging, export and thumbnail commands: file names,
//! extensions, unique targets, staged records and conflict policies.

use image::DynamicImage;
use vstd::prelude::*;

use crate::db::StagedItem;
use crate::lnk::{shortcut_name_for, shortcut_name_spec};
use crate::text::{
    chars_of, decimal, decimal_chars, find_char, first_index_of, is_blank, is_control,
    is_control_spec, is_whitespace, last_index_of, lemma_last_index_of_bounds, lower_chars,
    lower_seq, push_all, push_str_chars, rfind_char, str_eq, string_from_chars, sub_chars,
    to_owned_string, trim_chars, trim_spec,
};

verus! {

/* ---------- paths (std) ---------- */

/// The path `name` joined onto `dir` (`Path::join`), as text.
pub uninterp spec fn joined_path(dir: Seq<char>, name: Seq<char>) -> Seq<char>;

/// The last component of a path (`Path::file_name`), as text.
pub uninterp spec fn path_file_name(p: Seq<char>) -> Option<Seq<char>>;

/// `Path::join`: trusted to give the text that `Path::new(dir).join(name)`
/// spells, which depends on the two arguments alone (the joined path of two
/// UTF-8 strings is UTF-8, so the lossy conversion loses nothing).
#[verifier::external_body]
pub fn path_join(dir: &str, name: &str) -> (r: String)
    ensures
        r@ == joined_path(dir@, name@),
{
    std::path::Path::new(dir).join(name).to_string_lossy().into_owned()
}

/// `Path::file_name`: trusted to give the last component of `p`, a function of
/// `p` alone.
#[verifier::external_body]
pub fn file_name_of(p: &str) -> (r: Option<String>)
    ensures
        match r {
            Some(n) => path_file_name(p@) == Some(n@),
            None => path_file_name(p@) is None,
        },
{
    std::path::Path::new(p).file_name().map(|n| n.to_string_lossy().into_owned())
}

/// `Path::exists`.
///
/// Trusted, with nothing stated of the result: it depends on the disk.
#[verifier::external_body]
pub fn path_exists(p: &str) -> bool {
    std::path::Path::new(p).exists()
}

/// Whether `base` is a prefix of the path `p`, component by component
/// (`Path::starts_with`), a function of the two texts alone.
pub uninterp spec fn path_starts_with(p: Seq<char>, base: Seq<char>) -> bool;

/// `Path::starts_with`: trusted to compare the two paths' components, which
/// depends on the two arguments alone.
#[verifier::external_body]
fn path_has_prefix(p: &str, base: &str) -> (r: bool)
    ensures
        r == path_starts_with(p@, base@),
{
    std::path::Path::new(p).starts_with(base)
}

/* ---------- names ---------- */

/// The extension of a file name (`ext_of`): what follows the last dot, in ASCII
/// lower case; none without a dot, and none for a leading dot (`.gitignore`).
pub open spec fn ext_spec(name: Seq<char>) -> Option<Seq<char>> {
    match last_index_of(name, '.') {
        Some(i) => if i == 0 {
            None
        } else {
            Some(lower_seq(name.skip(i + 1)))
        },
        None => None,
    }
}

pub fn ext_of(name: &str) -> (r: Option<String>)
    ensures
        match r {
            Some(e) => ext_spec(name@) == Some(e@),
            None => ext_spec(name@) is None,
        },
{
    let cs = chars_of(name);
    match rfind_char(&cs, '.') {
        Some(i) => {
            proof {
                lemma_last_index_of_bounds(cs@, '.');
            }
            if i == 0 {
                return None;
            }
            let tail = sub_chars(&cs, i + 1, cs.len());
            assert(tail@ =~= name@.skip(i + 1));
            let lower = lower_chars(&tail);
            Some(string_from_chars(&lower))
        },
        None => None,
    }
}

/// The `n`-th candidate for a file named `desired`: the name itself first, then
/// `a (2).pdf`, `a (3).pdf`, … (the number goes before the extension; a leading
/// dot does not start one).
pub open spec fn candidate_name(desired: Seq<char>, n: nat) -> Seq<char> {
    if n <= 1 {
        desired
    } else {
        let tag = " ("@ + decimal(n) + ")"@;
        match last_index_of(desired, '.') {
            Some(i) => if i > 0 {
                desired.take(i) + tag + desired.skip(i)
            } else {
                desired + tag
            },
            None => desired + tag,
        }
    }
}

pub fn candidate(desired: &str, n: u64) -> (r: String)
    ensures
        r@ == candidate_name(desired@, n as nat),
{
    if n <= 1 {
        return to_owned_string(desired);
    }
    let cs = chars_of(desired);
    let digits = decimal_chars(n);
    let dot = rfind_char(&cs, '.');
    proof {
        lemma_last_index_of_bounds(cs@, '.');
    }
    let (stem, ext) = match dot {
        Some(i) => {
            if i > 0 {
                (sub_chars(&cs, 0, i), sub_chars(&cs, i, cs.len()))
            } else {
                (sub_chars(&cs, 0, cs.len()), Vec::new())
            }
        },
        None => (sub_chars(&cs, 0, cs.len()), Vec::new()),
    };
    let mut out = stem;
    push_str_chars(&mut out, " (");
    push_all(&mut out, &digits);
    push_str_chars(&mut out, ")");
    push_all(&mut out, &ext);
    proof {
        match dot {
            Some(i) => {
                if i > 0 {
                    assert(out@ =~= candidate_name(desired@, n as nat));
                } else {
                    assert(out@ =~= candidate_name(desired@, n as nat));
                }
            },
            None => {
                assert(out@ =~= candidate_name(desired@, n as nat));
            },
        }
    }
    string_from_chars(&out)
}

/// The texts of a list of strings.
pub open spec fn texts(v: Seq<String>) -> Seq<Seq<char>> {
    v.map_values(|s: String| s@)
}

fn contains_text(v: &Vec<String>, s: &String) -> (r: bool)
    ensures
        r == texts(v@).contains(s@),
{
    let mut i: usize = 0;
    while i < v.len()
        invariant
            i <= v.len(),
            forall|j: int| 0 <= j < i ==> v@[j]@ != s@,
        decreases v.len() - i,
    {
        if v[i] == *s {
            assert(texts(v@)[i as int] == s@);
            return true;
        }
        i = i + 1;
    }
    proof {
        if texts(v@).contains(s@) {
            let j = choose|j: int| 0 <= j < texts(v@).len() && texts(v@)[j] == s@;
            assert(v@[j]@ == s@);
        }
    }
    false
}

/// One step of the search for a free target: `cand` is taken when the disk
/// reported no such path (`on_disk` is false) and it is not yet recorded in
/// `used`; a taken candidate is recorded.
pub fn claim_if_free(cand: &String, on_disk: bool, used: &mut Vec<String>) -> (r: bool)
    ensures
        r == (!on_disk && !texts(old(used)@).contains(cand@)),
        r ==> final(used)@ == old(used)@.push(*cand),
        !r ==> final(used)@ == old(used)@,
{
    if !on_disk && !contains_text(used, cand) {
        used.push(cand.clone());
        true
    } else {
        false
    }
}

/// The path of the `n`-th candidate for `desired` in `dir`.
pub open spec fn cand_path(dir: Seq<char>, desired: Seq<char>, n: nat) -> Seq<char> {
    joined_path(dir, candidate_name(desired, n))
}

/// Candidate `i + 1` is free: the disk's answer for it (`answers[i]`) was that
/// it does not exist, and it is not recorded in `used`.
pub open spec fn cand_free(
    dir: Seq<char>,
    desired: Seq<char>,
    used: Seq<Seq<char>>,
    answers: Seq<bool>,
    i: int,
) -> bool {
    !answers[i] && !used.contains(cand_path(dir, desired, (i + 1) as nat))
}

/// A search that probed candidates 1, 2, … in order, `answers` holding the disk's
/// answer for each, and stopped at the first free one (`Some` of its path) or,
/// with every `u64` candidate taken, gave up (`None`).
pub open spec fn searched(
    dir: Seq<char>,
    desired: Seq<char>,
    used: Seq<Seq<char>>,
    answers: Seq<bool>,
    r: Option<Seq<char>>,
) -> bool {
    &&& 1 <= answers.len() <= u64::MAX
    &&& forall|i: int|
        0 <= i < answers.len() - 1 ==> !#[trigger] cand_free(dir, desired, used, answers, i)
    &&& match r {
        Some(t) => cand_free(dir, desired, used, answers, answers.len() - 1) && t == cand_path(
            dir,
            desired,
            answers.len(),
        ),
        None => answers.len() == u64::MAX && !cand_free(
            dir,
            desired,
            used,
            answers,
            answers.len() - 1,
        ),
    }
}

pub open spec fn ok_view(r: Result<String, String>) -> Option<Seq<char>> {
    match r {
        Ok(t) => Some(t@),
        Err(_) => None,
    }
}

pub open spec fn opt_view(r: Option<String>) -> Option<Seq<char>> {
    match r {
        Some(t) => Some(t@),
        None => None,
    }
}

/// A path in `dir` for a file named like `desired` that is neither on disk nor
/// in `used` (`unique_target`); it is recorded in `used`.  The candidates
/// (`desired`, then `stem (2).ext`, `stem (3).ext`, …) are probed on disk in
/// order and each decided by `claim_if_free`: the result is the first one the
/// disk reported absent that is not in `used`, and `None` only when every `u64`
/// candidate was taken.
pub fn unique_target(dir: &str, desired: &str, used: &mut Vec<String>) -> (r: Option<String>)
    ensures
        exists|answers: Seq<bool>| #[trigger]
            searched(dir@, desired@, texts(old(used)@), answers, opt_view(r)),
        match r {
            Some(t) => {
                &&& exists|n: nat| n >= 1 && t@ == joined_path(dir@, candidate_name(desired@, n))
                &&& !texts(old(used)@).contains(t@)
                &&& final(used)@ == old(used)@.push(t)
            },
            None => final(used)@ == old(used)@,
        },
{
    let ghost mut answers: Seq<bool> = Seq::empty();
    let mut n: u64 = 1;
    loop
        invariant
            n >= 1,
            used@ == old(used)@,
            answers.len() == n - 1,
            forall|i: int|
                0 <= i < answers.len() ==> !#[trigger] cand_free(
                    dir@,
                    desired@,
                    texts(old(used)@),
                    answers,
                    i,
                ),
        decreases u64::MAX - n,
    {
        let name = candidate(desired, n);
        let cand = path_join(dir, name.as_str());
        let on_disk = path_exists(cand.as_str());
        let ghost prev = answers;
        proof {
            answers = answers.push(on_disk);
            assert forall|i: int| 0 <= i < answers.len() - 1 implies !#[trigger] cand_free(
                dir@,
                desired@,
                texts(old(used)@),
                answers,
                i,
            ) by {
                assert(answers[i] == prev[i]);
                assert(!cand_free(dir@, desired@, texts(old(used)@), prev, i));
            }
        }
        assert(cand@ == cand_path(dir@, desired@, answers.len()));
        if claim_if_free(&cand, on_disk, used) {
            assert(cand_free(dir@, desired@, texts(old(used)@), answers, answers.len() - 1));
            assert(searched(dir@, desired@, texts(old(used)@), answers, opt_view(Some(cand))));
            return Some(cand);
        }
        assert(!cand_free(dir@, desired@, texts(old(used)@), answers, answers.len() - 1));
        if n == u64::MAX {
            assert(searched(dir@, desired@, texts(old(used)@), answers, opt_view(None)));
            return None;
        }
        n = n + 1;
    }
}

/// Two targets handed out against the same record of used names differ: the
/// first is recorded, and the second is never one already recorded.
pub proof fn law_unique_targets_differ(used: Seq<String>, first: String, second: Seq<char>)
    requires
        !texts(used.push(first)).contains(second),
    ensures
        second != first@,
{
    assert(texts(used.push(first))[used.len() as int] == first@);
}

/* ---------- text items ---------- */

/// Characters that cannot appear in a Windows file name.
pub open spec fn is_reserved_char(c: char) -> bool {
    c == '<' || c == '>' || c == ':' || c == '"' || c == '/' || c == '\\' || c == '|' || c == '?'
        || c == '*'
}

/// The characters kept for a text file's name: at most the first 18, with the
/// reserved and control characters turned into spaces.
pub open spec fn cleaned_head(raw: Seq<char>) -> Seq<char> {
    let n = if raw.len() < 18 {
        raw.len() as int
    } else {
        18
    };
    raw.take(n).map_values(
        |c: char|
            if is_reserved_char(c) || is_control_spec(c) {
                ' '
            } else {
                c
            },
    )
}

/// `sanitize_text_name`: the cleaned head, trimmed; "文字" when nothing is left.
pub open spec fn sanitized_name(raw: Seq<char>) -> Seq<char> {
    let t = trim_spec(cleaned_head(raw));
    if t.len() == 0 {
        "文字"@
    } else {
        t
    }
}

fn reserved(c: char) -> (r: bool)
    ensures
        r == is_reserved_char(c),
{
    c == '<' || c == '>' || c == ':' || c == '"' || c == '/' || c == '\\' || c == '|' || c == '?'
        || c == '*'
}

pub fn sanitize_text_name(raw: &str) -> (r: String)
    ensures
        r@ == sanitized_name(raw@),
{
    let cs = chars_of(raw);
    let n: usize = if cs.len() < 18 {
        cs.len()
    } else {
        18
    };
    let mut cleaned: Vec<char> = Vec::new();
    let mut i: usize = 0;
    while i < n
        invariant
            i <= n <= cs.len(),
            n == if cs@.len() < 18 {
                cs@.len() as int
            } else {
                18
            },
            cs@ == raw@,
            cleaned@ == cleaned_head(raw@).take(i as int),
        decreases n - i,
    {
        let c = cs[i];
        cleaned.push(
            if reserved(c) || is_control(c) {
                ' '
            } else {
                c
            },
        );
        i = i + 1;
        assert(cleaned@ =~= cleaned_head(raw@).take(i as int));
    }
    assert(cleaned_head(raw@).take(n as int) =~= cleaned_head(raw@));
    let t = trim_chars(&cleaned);
    if t.len() == 0 {
        to_owned_string("文字")
    } else {
        string_from_chars(&t)
    }
}

/// A sanitized name is never empty, has at most 18 characters, and holds no
/// reserved or control character.
pub proof fn law_sanitized_name_is_safe(raw: Seq<char>)
    ensures
        sanitized_name(raw).len() > 0,
        sanitized_name(raw).len() <= 18,
        forall|k: int|
            0 <= k < sanitized_name(raw).len() ==> !is_reserved_char(
                #[trigger] sanitized_name(raw)[k],
            ) && !is_control_spec(sanitized_name(raw)[k]),
{
    reveal_strlit("文字");
    let c = cleaned_head(raw);
    crate::text::lemma_trim_is_subrange(c);
    let s = sanitized_name(raw);
    if trim_spec(c).len() > 0 {
        let (a, b) = choose|a: int, b: int|
            0 <= a <= b <= c.len() && trim_spec(c) == c.subrange(a, b);
        assert forall|k: int| 0 <= k < s.len() implies !is_reserved_char(#[trigger] s[k])
            && !is_control_spec(s[k]) by {
            assert(s[k] == c[a + k]);
        }
    } else {
        assert forall|k: int| 0 <= k < s.len() implies !is_reserved_char(#[trigger] s[k])
            && !is_control_spec(s[k]) by {
            assert(s[k] == '文' || s[k] == '字');
        }
    }
}

/// Sanitizing a sanitized name changes nothing.
pub proof fn law_sanitize_idempotent(raw: Seq<char>)
    ensures
        sanitized_name(sanitized_name(raw)) == sanitized_name(raw),
{
    let s = sanitized_name(raw);
    law_sanitized_name_is_safe(raw);
    assert(cleaned_head(s) =~= s) by {
        assert(s.take(s.len() as int) =~= s);
    }
    let c = cleaned_head(raw);
    if trim_spec(c).len() > 0 {
        crate::text::lemma_trim_idempotent(c);
    } else {
        reveal_strlit("文字");
        assert(s[0] == '文');
        assert(s.last() == '字');
        assert(!crate::text::is_ws('文'));
        assert(!crate::text::is_ws('字'));
        crate::text::lemma_trim_of_trimmed(s);
    }
}

/// The first line of a text (`str::lines().next()`): up to the first line feed,
/// without a carriage return just before it; none for the empty text.
pub open spec fn first_line(s: Seq<char>) -> Option<Seq<char>> {
    if s.len() == 0 {
        None
    } else {
        match first_index_of(s, '\n') {
            Some(i) => {
                let l = s.take(i);
                if l.len() > 0 && l.last() == '\r' {
                    Some(l.drop_last())
                } else {
                    Some(l)
                }
            },
            None => Some(s),
        }
    }
}

pub fn first_line_of(content: &str) -> (r: Option<String>)
    ensures
        match r {
            Some(l) => first_line(content@) == Some(l@),
            None => first_line(content@) is None,
        },
{
    let cs = chars_of(content);
    if cs.len() == 0 {
        return None;
    }
    match find_char(&cs, '\n') {
        Some(i) => {
            let l = sub_chars(&cs, 0, i);
            assert(l@ =~= cs@.take(i as int));
            if l.len() > 0 && l[l.len() - 1] == '\r' {
                let l2 = sub_chars(&l, 0, l.len() - 1);
                assert(l2@ =~= l@.drop_last());
                Some(string_from_chars(&l2))
            } else {
                Some(string_from_chars(&l))
            }
        },
        None => Some(to_owned_string(content)),
    }
}

/// The file name a staged text gets (`stage_text`): its sanitized first line
/// plus `.txt`; refused with "内容为空" when the text is blank.
pub open spec fn text_file_name_spec(content: Seq<char>) -> Result<Seq<char>, Seq<char>> {
    if trim_spec(content).len() == 0 {
        Err("内容为空"@)
    } else {
        let first = match first_line(content) {
            Some(l) => l,
            None => "文字"@,
        };
        Ok(sanitized_name(first) + ".txt"@)
    }
}

pub fn text_file_name(content: &str) -> (r: Result<String, String>)
    ensures
        match r {
            Ok(n) => text_file_name_spec(content@) == Ok::<Seq<char>, Seq<char>>(n@),
            Err(e) => text_file_name_spec(content@) == Err::<Seq<char>, Seq<char>>(e@),
        },
{
    if is_blank(content) {
        return Err(to_owned_string("内容为空"));
    }
    let first = match first_line_of(content) {
        Some(l) => l,
        None => to_owned_string("文字"),
    };
    let base = sanitize_text_name(first.as_str());
    let mut cs = chars_of(base.as_str());
    push_str_chars(&mut cs, ".txt");
    Ok(string_from_chars(&cs))
}

/* ---------- staging ---------- */

/// How dropped paths are staged.
#[derive(Debug, Clone, Copy, PartialEq, Eq, Structural)]
pub enum StageAction {
    Shortcut,
    Copy,
    Move,
}

pub open spec fn stage_action_spec(a: Seq<char>) -> Result<StageAction, Seq<char>> {
    if a == "shortcut"@ {
        Ok(StageAction::Shortcut)
    } else if a == "copy"@ {
        Ok(StageAction::Copy)
    } else if a == "move"@ {
        Ok(StageAction::Move)
    } else {
        Err("未知动作: "@ + a)
    }
}

/// The staging action named by the front end; an unknown one is refused.
pub fn parse_stage_action(action: &str) -> (r: Result<StageAction, String>)
    ensures
        match r {
            Ok(a) => stage_action_spec(action@) == Ok::<StageAction, Seq<char>>(a),
            Err(e) => stage_action_spec(action@) == Err::<StageAction, Seq<char>>(e@),
        },
{
    if str_eq(action, "shortcut") {
        Ok(StageAction::Shortcut)
    } else if str_eq(action, "copy") {
        Ok(StageAction::Copy)
    } else if str_eq(action, "move") {
        Ok(StageAction::Move)
    } else {
        let mut cs = chars_of("未知动作: ");
        push_str_chars(&mut cs, action);
        Err(string_from_chars(&cs))
    }
}

/// The name under which a dropped path is staged: a shortcut's display name, or
/// the file's own name (with a placeholder for a path that has none).
pub open spec fn staged_name(action: StageAction, file_name: Option<Seq<char>>) -> Seq<char> {
    match action {
        StageAction::Shortcut => shortcut_name_spec(
            match file_name {
                Some(n) => n,
                None => "目标"@,
            },
        ),
        _ => match file_name {
            Some(n) => n,
            None => "未命名"@,
        },
    }
}

pub fn stage_name(action: StageAction, file_name: Option<&String>) -> (r: String)
    ensures
        r@ == staged_name(
            action,
            match file_name {
                Some(n) => Some(n@),
                None => None,
            },
        ),
{
    match action {
        StageAction::Shortcut => match file_name {
            Some(n) => shortcut_name_for(n.as_str()),
            None => shortcut_name_for("目标"),
        },
        _ => match file_name {
            Some(n) => n.clone(),
            None => to_owned_string("未命名"),
        },
    }
}

/// The text of an optional string.
pub open spec fn opt_text(o: Option<String>) -> Option<Seq<char>> {
    match o {
        Some(s) => Some(s@),
        None => None,
    }
}

/// `planned[i]` stages `sources[i]` under its staged name, at a numbered
/// candidate of that name in `dir`.
pub open spec fn plans_source(
    dir: Seq<char>,
    a: StageAction,
    source: (String, Option<String>),
    planned: (String, String, String),
) -> bool {
    &&& planned.0@ == source.0@
    &&& planned.1@ == staged_name(a, opt_text(source.1))
    &&& exists|n: nat| n >= 1 && planned.2@ == joined_path(dir, candidate_name(planned.1@, n))
}

/// The targets of the first `i` planned entries.
pub open spec fn targets_before(plan: Seq<(String, String, String)>, i: int) -> Seq<Seq<char>> {
    plan.take(i).map_values(|p: (String, String, String)| p.2@)
}

/// Entry `i`'s target is what the search for its name gives, with the targets
/// planned before it recorded as used.
pub open spec fn searched_entry(dir: Seq<char>, plan: Seq<(String, String, String)>, i: int) -> bool {
    exists|answers: Seq<bool>| #[trigger]
        searched(dir, plan[i].1@, targets_before(plan, i), answers, Some(plan[i].2@))
}

/// The staging plan for dropped paths (`stage_paths` before any file is
/// touched): `sources` holds each dropped path that exists, with its file name.
/// Nothing to stage is refused with "没有可暂存的文件", an unknown action with
/// its own error; otherwise each source gets its staged name and a target in
/// `dir`, no two alike, and "没有可用的文件名" when no free name is left.
pub fn plan_staging(dir: &str, action: &str, sources: &Vec<(String, Option<String>)>) -> (r:
    Result<(StageAction, Vec<(String, String, String)>), String>)
    ensures
        sources@.len() == 0 ==> (r matches Err(e) && e@ == "没有可暂存的文件"@),
        sources@.len() > 0 && stage_action_spec(action@) is Err ==> (r matches Err(e)
            && stage_action_spec(action@) == Err::<StageAction, Seq<char>>(e@)),
        match r {
            Ok((a, plan)) => {
                &&& sources@.len() > 0
                &&& stage_action_spec(action@) == Ok::<StageAction, Seq<char>>(a)
                &&& plan@.len() == sources@.len()
                &&& forall|i: int|
                    0 <= i < plan@.len() ==> #[trigger] plans_source(
                        dir@,
                        a,
                        sources@[i],
                        plan@[i],
                    )
                &&& forall|i: int, j: int|
                    0 <= i < j < plan@.len() ==> #[trigger] plan@[i].2@ != #[trigger] plan@[j].2@
                &&& forall|i: int|
                    0 <= i < plan@.len() ==> #[trigger] searched_entry(dir@, plan@, i)
            },
            Err(e) => sources@.len() == 0 || stage_action_spec(action@) is Err || e@
                == "没有可用的文件名"@,
        },
{
    if sources.len() == 0 {
        return Err(to_owned_string("没有可暂存的文件"));
    }
    let a = match parse_stage_action(action) {
        Ok(a) => a,
        Err(e) => return Err(e),
    };
    let mut used: Vec<String> = Vec::new();
    let mut plan: Vec<(String, String, String)> = Vec::new();
    let mut i: usize = 0;
    while i < sources.len()
        invariant
            i <= sources.len(),
            sources@.len() > 0,
            stage_action_spec(action@) == Ok::<StageAction, Seq<char>>(a),
            plan@.len() == i,
            used@.len() == i,
            forall|k: int| 0 <= k < i ==> #[trigger] used@[k]@ == plan@[k].2@,
            forall|k: int|
                0 <= k < i ==> #[trigger] plans_source(dir@, a, sources@[k], plan@[k]),
            forall|k: int, j: int|
                0 <= k < j < i ==> #[trigger] plan@[k].2@ != #[trigger] plan@[j].2@,
            forall|k: int| 0 <= k < i ==> #[trigger] searched_entry(dir@, plan@, k),
        decreases sources.len() - i,
    {
        let (src, fname) = &sources[i];
        let name = stage_name(a, fname.as_ref());
        assert(name@ == staged_name(a, opt_text(sources@[i as int].1)));
        let ghost before_used = used@;
        let ghost before_plan = plan@;
        assert(texts(before_used) =~= targets_before(before_plan, i as int)) by {
            assert forall|k: int| 0 <= k < i implies #[trigger] texts(before_used)[k]
                == targets_before(before_plan, i as int)[k] by {
                assert(before_used[k]@ == before_plan[k].2@);
            }
        }
        let ghost name_v = name@;
        match unique_target(dir, name.as_str(), &mut used) {
            Some(t) => {
                let ghost answers = choose|answers: Seq<bool>|
                    #[trigger] searched(dir@, name_v, texts(before_used), answers, Some(t@));
                proof {
                    assert forall|k: int| 0 <= k < i implies before_plan[k].2@ != t@ by {
                        assert(texts(before_used)[k] == before_used[k]@);
                    }
                }
                let ghost tv = t@;
                plan.push((src.clone(), name, t));
                proof {
                    assert(plan@[i as int].2@ == tv);
                    assert forall|k: int| 0 <= k < i + 1 implies #[trigger] used@[k]@
                        == plan@[k].2@ by {
                        if k < i {
                            assert(used@[k] == before_used[k]);
                            assert(plan@[k] == before_plan[k]);
                        }
                    }
                    assert forall|k: int|
                        0 <= k < i + 1 implies #[trigger] plans_source(
                        dir@,
                        a,
                        sources@[k],
                        plan@[k],
                    ) by {
                        if k < i {
                            assert(plan@[k] == before_plan[k]);
                        }
                    }
                    assert forall|k: int, j: int|
                        0 <= k < j < i + 1 implies #[trigger] plan@[k].2@ != #[trigger] plan@[j].2@ by {
                        assert(plan@[k] == before_plan[k]);
                        if j < i {
                            assert(plan@[j] == before_plan[j]);
                        }
                    }
                    assert forall|k: int| 0 <= k < i + 1 implies #[trigger] searched_entry(
                        dir@,
                        plan@,
                        k,
                    ) by {
                        assert(plan@.take(k) =~= before_plan.take(k)) by {
                            if k < i {
                                assert forall|j: int| 0 <= j < k implies plan@.take(k)[j]
                                    == before_plan.take(k)[j] by {
                                    assert(plan@[j] == before_plan[j]);
                                }
                            } else {
                                assert forall|j: int| 0 <= j < k implies plan@.take(k)[j]
                                    == before_plan.take(k)[j] by {
                                    assert(plan@[j] == before_plan[j]);
                                }
                            }
                        }
                        if k < i {
                            assert(plan@[k] == before_plan[k]);
                            assert(searched_entry(dir@, before_plan, k));
                            let a2 = choose|a2: Seq<bool>| #[trigger] searched(
                                dir@,
                                before_plan[k].1@,
                                targets_before(before_plan, k),
                                a2,
                                Some(before_plan[k].2@),
                            );
                            assert(searched(
                                dir@,
                                plan@[k].1@,
                                targets_before(plan@, k),
                                a2,
                                Some(plan@[k].2@),
                            ));
                        } else {
                            assert(plan@[k].1@ == name_v);
                            assert(searched(
                                dir@,
                                plan@[k].1@,
                                targets_before(plan@, k),
                                answers,
                                Some(plan@[k].2@),
                            ));
                        }
                    }
                }
            },
            None => {
                return Err(to_owned_string("没有可用的文件名"));
            },
        }
        i = i + 1;
    }
    Ok((a, plan))
}

/// The record of a staged path (`stage_paths`): `source_name` is the name the
/// target was derived from, `disk_size` the size of the staged file.
pub fn staged_item(
    pod_id: u64,
    action: StageAction,
    source: &str,
    source_name: &str,
    target: &str,
    is_dir: bool,
    disk_size: i64,
    created_at: i64,
) -> (r: StagedItem)
    ensures
        r.id == 0,
        r.pod_id == pod_id as i64,
        r.kind@ == match action {
            StageAction::Shortcut => "shortcut"@,
            _ => if is_dir {
                "folder"@
            } else {
                "file"@
            },
        },
        r.staging_path@ == target@,
        r.original_path matches Some(o) && o@ == source@,
        r.name@ == match path_file_name(target@) {
            Some(n) => n,
            None => Seq::<char>::empty(),
        },
        match action {
            StageAction::Shortcut => r.ext matches Some(e) && e@ == "lnk"@,
            _ => match ext_spec(source_name@) {
                Some(e) => r.ext matches Some(x) && x@ == e,
                None => r.ext is None,
            },
        },
        r.size == match action {
            StageAction::Shortcut => 0,
            _ => if is_dir {
                0
            } else {
                disk_size
            },
        },
        r.created_at == created_at,
{
    let name = match file_name_of(target) {
        Some(n) => n,
        None => String::new(),
    };
    let (kind, ext, size) = match action {
        StageAction::Shortcut => (to_owned_string("shortcut"), Some(to_owned_string("lnk")), 0),
        _ => (
            if is_dir {
                to_owned_string("folder")
            } else {
                to_owned_string("file")
            },
            ext_of(source_name),
            if is_dir {
                0
            } else {
                disk_size
            },
        ),
    };
    StagedItem {
        id: 0,
        pod_id: pod_id as i64,
        kind,
        staging_path: to_owned_string(target),
        original_path: Some(to_owned_string(source)),
        name,
        ext,
        size,
        created_at,
    }
}

/// Where a staged text named `file` is written in `dir` (`stage_text`): a
/// numbered candidate of the name, or "没有可用的文件名" when none is free.
pub fn text_target(dir: &str, file: &str) -> (r: Result<String, String>)
    ensures
        exists|answers: Seq<bool>| #[trigger]
            searched(dir@, file@, Seq::empty(), answers, ok_view(r)),
        match r {
            Ok(t) => exists|n: nat| n >= 1 && t@ == joined_path(dir@, candidate_name(file@, n)),
            Err(e) => e@ == "没有可用的文件名"@,
        },
{
    let mut used: Vec<String> = Vec::new();
    let ghost empty = used@;
    assert(texts(empty) =~= Seq::<Seq<char>>::empty());
    let found = unique_target(dir, file, &mut used);
    let ghost answers = choose|answers: Seq<bool>|
        #[trigger] searched(dir@, file@, texts(empty), answers, opt_view(found));
    let r = match found {
        Some(t) => Ok(t),
        None => Err(to_owned_string("没有可用的文件名")),
    };
    assert(ok_view(r) == opt_view(found));
    assert(searched(dir@, file@, Seq::empty(), answers, ok_view(r)));
    r
}

/// The record of a staged text (`stage_text`).
pub fn text_item(pod_id: u64, target: &str, size: i64, created_at: i64) -> (r: StagedItem)
    ensures
        r.id == 0,
        r.pod_id == pod_id as i64,
        r.kind@ == "text"@,
        r.staging_path@ == target@,
        r.original_path is None,
        r.name@ == match path_file_name(target@) {
            Some(n) => n,
            None => Seq::<char>::empty(),
        },
        r.ext matches Some(e) && e@ == "txt"@,
        r.size == size,
        r.created_at == created_at,
{
    let name = match file_name_of(target) {
        Some(n) => n,
        None => String::new(),
    };
    StagedItem {
        id: 0,
        pod_id: pod_id as i64,
        kind: to_owned_string("text"),
        staging_path: to_owned_string(target),
        original_path: None,
        name,
        ext: Some(to_owned_string("txt")),
        size,
        created_at,
    }
}

/// The pods that a set of items belongs to, each once.
pub fn distinct_pod_ids(items: &Vec<StagedItem>) -> (r: Vec<i64>)
    ensures
        r@.no_duplicates(),
        forall|p: i64|
            #![trigger r@.contains(p)]
            r@.contains(p) <==> exists|i: int| 0 <= i < items@.len() && items@[i].pod_id == p,
{
    let mut out: Vec<i64> = Vec::new();
    let mut i: usize = 0;
    while i < items.len()
        invariant
            i <= items.len(),
            out@.no_duplicates(),
            forall|p: i64|
                #![trigger out@.contains(p)]
                out@.contains(p) <==> exists|k: int| 0 <= k < i && items@[k].pod_id == p,
        decreases items.len() - i,
    {
        let p = items[i].pod_id;
        let mut seen = false;
        let mut j: usize = 0;
        while j < out.len()
            invariant
                j <= out.len(),
                seen == exists|k: int| 0 <= k < j && out@[k] == p,
            decreases out.len() - j,
        {
            if out[j] == p {
                seen = true;
            }
            j = j + 1;
        }
        let ghost prev = out@;
        if !seen {
            out.push(p);
            assert forall|q: i64| #[trigger] out@.contains(q) <==> (prev.contains(q) || q == p) by {
                if out@.contains(q) {
                    let k = choose|k: int| 0 <= k < out@.len() && out@[k] == q;
                    if k < prev.len() {
                        assert(prev[k] == q);
                    }
                }
                if prev.contains(q) {
                    let k = choose|k: int| 0 <= k < prev.len() && prev[k] == q;
                    assert(out@[k] == q);
                }
                if q == p {
                    assert(out@[prev.len() as int] == p);
                }
            }
        } else {
            assert(out@.contains(p));
        }
        assert forall|q: i64| #[trigger]
            out@.contains(q) <==> exists|k: int| 0 <= k < i + 1 && items@[k].pod_id == q by {
            if q == p {
                assert(items@[i as int].pod_id == q);
            }
            if exists|k: int| 0 <= k < i + 1 && items@[k].pod_id == q {
                let k = choose|k: int| 0 <= k < i + 1 && items@[k].pod_id == q;
                if k < i {
                    assert(prev.contains(q));
                }
            }
        }
        i = i + 1;
    }
    out
}

/* ---------- export ---------- */

/// What to do when an exported name already exists in the destination.
#[derive(Debug, Clone, Copy, PartialEq, Eq, Structural)]
pub enum ConflictPolicy {
    /// Report the clashing names instead of exporting.
    Ask,
    Overwrite,
    Skip,
    /// Export under a numbered name.
    Rename,
}

pub open spec fn conflict_policy_spec(s: Seq<char>) -> ConflictPolicy {
    if s == "ask"@ {
        ConflictPolicy::Ask
    } else if s == "overwrite"@ {
        ConflictPolicy::Overwrite
    } else if s == "skip"@ {
        ConflictPolicy::Skip
    } else {
        ConflictPolicy::Rename
    }
}

pub fn parse_conflict_policy(s: &str) -> (r: ConflictPolicy)
    ensures
        r == conflict_policy_spec(s@),
{
    if str_eq(s, "ask") {
        ConflictPolicy::Ask
    } else if str_eq(s, "overwrite") {
        ConflictPolicy::Overwrite
    } else if str_eq(s, "skip") {
        ConflictPolicy::Skip
    } else {
        ConflictPolicy::Rename
    }
}

/// The names whose flag is set, in their order.
pub open spec fn flagged(names: Seq<Seq<char>>, found: Seq<bool>) -> Seq<Seq<char>>
    decreases names.len(),
{
    if names.len() == 0 || found.len() == 0 {
        Seq::empty()
    } else {
        let rest = flagged(names.drop_last(), found.drop_last());
        if found.last() {
            rest.push(names.last())
        } else {
            rest
        }
    }
}

/// The clashing names among `names`, where `found[i]` tells whether the `i`-th
/// one exists in the destination: exactly the flagged names, in order.
pub fn conflicts_among(names: &Vec<String>, found: &Vec<bool>) -> (r: Vec<String>)
    requires
        found@.len() == names@.len(),
    ensures
        texts(r@) == flagged(texts(names@), found@),
{
    let mut out: Vec<String> = Vec::new();
    let mut i: usize = 0;
    while i < names.len()
        invariant
            i <= names.len(),
            found@.len() == names@.len(),
            texts(out@) == flagged(texts(names@).take(i as int), found@.take(i as int)),
        decreases names.len() - i,
    {
        let ghost prev = out@;
        let ghost t = texts(names@);
        assert(t.take(i + 1).drop_last() =~= t.take(i as int));
        assert(found@.take(i + 1).drop_last() =~= found@.take(i as int));
        assert(t.take(i + 1).last() == names@[i as int]@);
        if found[i] {
            out.push(names[i].clone());
            assert(texts(out@) =~= texts(prev).push(names@[i as int]@));
        }
        i = i + 1;
    }
    assert(texts(names@).take(names@.len() as int) =~= texts(names@));
    assert(found@.take(names@.len() as int) =~= found@);
    out
}

/// The paths probed for clashes: `dest` joined with each name, in order.
pub fn probe_paths(dest: &str, names: &Vec<String>) -> (r: Vec<String>)
    ensures
        r@.len() == names@.len(),
        forall|i: int| 0 <= i < r@.len() ==> #[trigger] r@[i]@ == joined_path(dest@, names@[i]@),
{
    let mut out: Vec<String> = Vec::new();
    let mut i: usize = 0;
    while i < names.len()
        invariant
            i <= names.len(),
            out@.len() == i,
            forall|j: int| 0 <= j < i ==> #[trigger] out@[j]@ == joined_path(dest@, names@[j]@),
        decreases names.len() - i,
    {
        out.push(path_join(dest, names[i].as_str()));
        i = i + 1;
    }
    out
}

/// The names of the items that already exist in `dest`, in order.  Each name's
/// path is `probe_paths`' entry for it; whether it exists is the disk's answer,
/// and `conflicts_among` keeps the names found, so the result is the names for
/// some outcome per name.
pub fn export_conflicts(dest: &str, names: &Vec<String>) -> (r: Vec<String>)
    ensures
        exists|found: Seq<bool>|
            found.len() == names@.len() && texts(r@) == #[trigger] flagged(texts(names@), found),
{
    let probes = probe_paths(dest, names);
    let mut found: Vec<bool> = Vec::new();
    let mut i: usize = 0;
    while i < probes.len()
        invariant
            i <= probes.len(),
            probes@.len() == names@.len(),
            found@.len() == i,
        decreases probes.len() - i,
    {
        found.push(path_exists(probes[i].as_str()));
        i = i + 1;
    }
    let r = conflicts_among(names, &found);
    assert(texts(r@) == flagged(texts(names@), found@));
    r
}

/// Export stops to ask when the policy is to ask and some names clash.
pub fn export_must_ask(policy: ConflictPolicy, conflicts: &Vec<String>) -> (b: bool)
    ensures
        b == (policy == ConflictPolicy::Ask && conflicts@.len() > 0),
{
    policy == ConflictPolicy::Ask && conflicts.len() > 0
}

/// The skip policy's decision for the target path `p`, given the disk's answer
/// whether it exists: an existing target is skipped, a free one is used.
pub fn skip_target(p: String, on_disk: bool) -> (r: Option<String>)
    ensures
        r == (if on_disk {
            None::<String>
        } else {
            Some(p)
        }),
{
    if on_disk {
        None
    } else {
        Some(p)
    }
}

/// Where an item named `name` is exported to in `dest`, or `None` to skip it:
/// overwriting uses the name as is, skipping passes over a name the disk
/// reports existing (`skip_target`), and otherwise a unique numbered name is
/// chosen.
pub fn export_target(dest: &str, name: &str, policy: ConflictPolicy, used: &mut Vec<String>) -> (r:
    Option<String>)
    ensures
        policy == ConflictPolicy::Overwrite ==> (r matches Some(t) && t@ == joined_path(
            dest@,
            name@,
        )) && final(used)@ == old(used)@,
        policy == ConflictPolicy::Skip ==> match r {
            Some(t) => t@ == joined_path(dest@, name@),
            None => true,
        } && final(used)@ == old(used)@,
        (policy == ConflictPolicy::Ask || policy == ConflictPolicy::Rename) ==> exists|
            answers: Seq<bool>,
        | #[trigger] searched(dest@, name@, texts(old(used)@), answers, opt_view(r)),
        (policy == ConflictPolicy::Ask || policy == ConflictPolicy::Rename) ==> match r {
            Some(t) => {
                &&& exists|n: nat| n >= 1 && t@ == joined_path(dest@, candidate_name(name@, n))
                &&& !texts(old(used)@).contains(t@)
                &&& final(used)@ == old(used)@.push(t)
            },
            None => final(used)@ == old(used)@,
        },
{
    match policy {
        ConflictPolicy::Overwrite => Some(path_join(dest, name)),
        ConflictPolicy::Skip => {
            let p = path_join(dest, name);
            let on_disk = path_exists(p.as_str());
            skip_target(p, on_disk)
        },
        _ => unique_target(dest, name, used),
    }
}

/* ---------- thumbnails ---------- */

/// A thumbnail handed to the front end.
pub struct ThumbnailPayload {
    pub mime: String,
    pub bytes: Vec<u8>,
}

pub const THUMB_MAX_SIDE: u32 = 256;

/// Larger source files get no thumbnail.
pub const THUMB_MAX_SRC: u64 = 64 * 1024 * 1024;

pub open spec fn is_image_ext(e: Seq<char>) -> bool {
    e == "png"@ || e == "jpg"@ || e == "jpeg"@ || e == "gif"@ || e == "webp"@ || e == "bmp"@ || e
        == "ico"@
}

/// Whether a file of this name and size gets a thumbnail (`read_thumbnail`):
/// an image extension and at most `THUMB_MAX_SRC` bytes.
pub open spec fn thumbnail_wanted_spec(file_name: Seq<char>, size: u64) -> bool {
    (match ext_spec(file_name) {
        Some(e) => is_image_ext(e),
        None => false,
    }) && size <= THUMB_MAX_SRC
}

/// Exactly the files named with one of the extensions png, jpg, jpeg, gif, webp,
/// bmp or ico (in any case), of at most 64 MiB, get a thumbnail.
pub proof fn law_image_files_get_thumbnails(file_name: Seq<char>, size: u64)
    ensures
        thumbnail_wanted_spec(file_name, size) <==> (ext_spec(file_name) matches Some(e) && (e
            == "png"@ || e == "jpg"@ || e == "jpeg"@ || e == "gif"@ || e == "webp"@ || e == "bmp"@
            || e == "ico"@) && size <= 67108864),
{
}

pub fn thumbnail_wanted(file_name: &str, size: u64) -> (b: bool)
    ensures
        b == thumbnail_wanted_spec(file_name@, size),
{
    match ext_of(file_name) {
        Some(e) => {
            let s = e.as_str();
            let image = str_eq(s, "png") || str_eq(s, "jpg") || str_eq(s, "jpeg") || str_eq(
                s,
                "gif",
            ) || str_eq(s, "webp") || str_eq(s, "bmp") || str_eq(s, "ico");
            image && size <= THUMB_MAX_SRC
        },
        None => false,
    }
}

/// Whether a thumbnail may be read from `target`: it lies inside one of the
/// staging folders (`read_thumbnail`).  Both are canonical paths; a folder that
/// could not be resolved is left out of `folders`, and with no folder nothing
/// is allowed.
pub fn thumbnail_allowed(target: &str, folders: &Vec<String>) -> (b: bool)
    ensures
        b == exists|i: int| 0 <= i < folders@.len() && path_starts_with(target@, #[trigger] folders@[i]@),
{
    let mut i: usize = 0;
    while i < folders.len()
        invariant
            i <= folders.len(),
            forall|j: int| 0 <= j < i ==> !path_starts_with(target@, #[trigger] folders@[j]@),
        decreases folders.len() - i,
    {
        if path_has_prefix(target, folders[i].as_str()) {
            return true;
        }
        i = i + 1;
    }
    false
}

#[verifier::external_type_specification]
#[verifier::external_body]
pub struct ExDynamicImage(DynamicImage);

/// `image::load_from_memory`, with the error as its message.
///
/// Trusted, with nothing stated: decoding first consults the crate's
/// process-wide format-detection and decoding hooks, so its outcome is not a
/// function of the bytes alone (this library registers no hooks), and the
/// decoded image is opaque here.
#[verifier::external_body]
fn decode_image(bytes: &[u8]) -> Result<DynamicImage, String> {
    image::load_from_memory(bytes).map_err(|e| e.to_string())
}

/// The width of an image, in pixels (`DynamicImage::width`).
pub uninterp spec fn image_width(img: DynamicImage) -> u32;

/// The height of an image, in pixels (`DynamicImage::height`).
pub uninterp spec fn image_height(img: DynamicImage) -> u32;

/// Whether an image holds 8-bit channels: luma, luma with alpha, RGB or RGBA
/// (`DynamicImage::color` is `L8`, `La8`, `Rgb8` or `Rgba8`).
pub uninterp spec fn image_is_8bit(img: DynamicImage) -> bool;

/// The image `DynamicImage::thumbnail(side, side)` gives: a function of the image
/// and the bound alone.
pub uninterp spec fn thumbnail_spec(img: DynamicImage, side: u32) -> DynamicImage;

/// The PNG stream `DynamicImage::write_to` writes for an image, where it writes
/// one: the encoder's settings are fixed, so it depends on the image alone.
pub uninterp spec fn png_bytes(img: DynamicImage) -> Seq<u8>;

/// `DynamicImage::thumbnail` with both bounds `side`.
///
/// Trusted: the result keeps the image's colour type and is scaled, with its
/// aspect ratio, to fit within `side` × `side`, never below one pixel on a side
/// (`resize_dimensions` rounds and clamps to at least 1; `thumbnail_exact`
/// allocates exactly those dimensions).  The pixels are not described.
#[verifier::external_body]
fn thumbnail_image(img: &DynamicImage, side: u32) -> (r: DynamicImage)
    ensures
        r == thumbnail_spec(*img, side),
        image_is_8bit(r) == image_is_8bit(*img),
        side >= 1 ==> 1 <= image_width(r) <= side && 1 <= image_height(r) <= side,
{
    img.thumbnail(side, side)
}

/// The big-endian 32-bit number at byte `i`.
pub open spec fn be_u32_at(b: Seq<u8>, i: int) -> int {
    b[i] * 16777216 + b[i + 1] * 65536 + b[i + 2] * 256 + b[i + 3]
}

/// The width and height a PNG stream declares: the first chunk after the
/// 8-byte signature is IHDR, whose data starts with the width and the height.
pub open spec fn png_size(b: Seq<u8>) -> Option<(int, int)> {
    if b.len() >= 24 {
        Some((be_u32_at(b, 16), be_u32_at(b, 20)))
    } else {
        None
    }
}

/// `DynamicImage::write_to` in PNG format, into a fresh buffer, with the error as
/// its message.
///
/// Trusted: the stream written is `png_bytes` of the image; it starts with the signature and an IHDR chunk holding the
/// image's width and height; an 8-bit image of at least one pixel on each side
/// is always written (the PNG encoder takes those colour types as they are, and
/// writing into memory does not fail).  The pixel data is not described.
#[verifier::external_body]
fn encode_png(img: &DynamicImage) -> (r: Result<Vec<u8>, String>)
    ensures
        image_is_8bit(*img) && 1 <= image_width(*img) <= 65535 && 1 <= image_height(*img)
            <= 65535 ==> r is Ok,
        r matches Ok(b) ==> b@ == png_bytes(*img),
        r matches Ok(b) ==> png_size(b@) == Some(
            (image_width(*img) as int, image_height(*img) as int),
        ),
{
    let mut png: Vec<u8> = Vec::new();
    img.write_to(std::io::Cursor::new(&mut png), image::ImageFormat::Png).map_err(|e| e.to_string())?;
    Ok(png)
}

/// The PNG thumbnail of a decoded image: scaled to fit within
/// `THUMB_MAX_SIDE` × `THUMB_MAX_SIDE` and encoded as PNG.  An 8-bit image always
/// gives one.
pub fn thumbnail_of(img: &DynamicImage) -> (r: Result<ThumbnailPayload, String>)
    ensures
        image_is_8bit(*img) ==> r is Ok,
        r matches Ok(p) ==> {
            &&& p.mime@ == "image/png"@
            &&& p.bytes@ == png_bytes(thumbnail_spec(*img, THUMB_MAX_SIDE))
            &&& png_size(p.bytes@) matches Some((w, h))
            &&& 1 <= w <= THUMB_MAX_SIDE
            &&& 1 <= h <= THUMB_MAX_SIDE
        },
{
    let thumb = thumbnail_image(img, THUMB_MAX_SIDE);
    let png = match encode_png(&thumb) {
        Ok(b) => b,
        Err(e) => return Err(e),
    };
    Ok(ThumbnailPayload { mime: to_owned_string("image/png"), bytes: png })
}

/// A PNG thumbnail, at most `THUMB_MAX_SIDE` on its longer side, of an image file's
/// bytes (`read_thumbnail`).  Whether the bytes decode is the image crate's
/// answer; a decoding error is passed on.
pub fn make_thumbnail(bytes: &[u8]) -> (r: Result<ThumbnailPayload, String>)
    ensures
        r matches Ok(p) ==> {
            &&& p.mime@ == "image/png"@
            &&& exists|img: DynamicImage| #[trigger]
                png_bytes(thumbnail_spec(img, THUMB_MAX_SIDE)) == p.bytes@
            &&& png_size(p.bytes@) matches Some((w, h))
            &&& 1 <= w <= THUMB_MAX_SIDE
            &&& 1 <= h <= THUMB_MAX_SIDE
        },
{
    let img = match decode_image(bytes) {
        Ok(i) => i,
        Err(e) => return Err(e),
    };
    thumbnail_of(&img)
}

} // verus!
