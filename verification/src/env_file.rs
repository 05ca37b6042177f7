//! The `.env` file in which a refreshed login token is kept: its lines, and
//! the update that sets one key.

use vstd::prelude::*;

use crate::text::{chars_of, starts_with, starts_with_seq};

verus! {

/// A line without the carriage return that ends it, if any.
pub open spec fn strip_cr(line: Seq<char>) -> Seq<char> {
    if line.len() > 0 && line.last() == '\r' {
        line.drop_last()
    } else {
        line
    }
}

/// The lines of `s`, given that `cur` was read of the current line already.
pub open spec fn lines_from(s: Seq<char>, cur: Seq<char>) -> Seq<Seq<char>>
    decreases s.len(),
{
    if s.len() == 0 {
        if cur.len() == 0 {
            Seq::empty()
        } else {
            seq![cur]
        }
    } else if s[0] == '\n' {
        seq![strip_cr(cur)] + lines_from(s.drop_first(), Seq::empty())
    } else {
        lines_from(s.drop_first(), cur.push(s[0]))
    }
}

/// The lines of a text as `str::lines` gives them: split at each `\n`, a
/// `\r` before it dropped, and no empty line after a final `\n`.
pub open spec fn text_lines(s: Seq<char>) -> Seq<Seq<char>> {
    lines_from(s, Seq::empty())
}

/// Each line followed by `\n`, as the file is written.
pub open spec fn joined(lines: Seq<Seq<char>>) -> Seq<char>
    decreases lines.len(),
{
    if lines.len() == 0 {
        Seq::empty()
    } else {
        lines[0] + seq!['\n'] + joined(lines.drop_first())
    }
}

/// What a line that sets `key` begins with.
pub open spec fn env_prefix(key: Seq<char>) -> Seq<char> {
    key + " = "@
}

/// The line that sets `key` to `value`.
pub open spec fn env_line(key: Seq<char>, value: Seq<char>) -> Seq<char> {
    env_prefix(key) + value
}

/// The lines with the first line that sets `key` replaced by one that sets it
/// to `value`, or with such a line added at the end where none sets it.
pub open spec fn upsert(lines: Seq<Seq<char>>, key: Seq<char>, value: Seq<char>) -> Seq<Seq<char>>
    decreases lines.len(),
{
    if lines.len() == 0 {
        seq![env_line(key, value)]
    } else if starts_with_seq(lines[0], env_prefix(key)) {
        lines.update(0, env_line(key, value))
    } else {
        seq![lines[0]] + upsert(lines.drop_first(), key, value)
    }
}

/// The value that the first line setting `key` gives it, if any line does.
pub open spec fn env_value(lines: Seq<Seq<char>>, key: Seq<char>) -> Option<Seq<char>>
    decreases lines.len(),
{
    if lines.len() == 0 {
        None
    } else if starts_with_seq(lines[0], env_prefix(key)) {
        Some(lines[0].skip(env_prefix(key).len() as int))
    } else {
        env_value(lines.drop_first(), key)
    }
}

/// The texts of a list of strings.
pub open spec fn strings_view(v: Seq<String>) -> Seq<Seq<char>> {
    v.map_values(|s: String| s@)
}

/// The new content of the `.env` file when `key` is set to `value`: the old
/// content's lines (none where there is no file) with `key` set, each line
/// ended by `\n`.
pub open spec fn env_content(existing: Option<Seq<char>>, key: Seq<char>, value: Seq<char>) -> Seq<
    char,
> {
    joined(upsert(old_lines(existing), key, value))
}

/// The lines of the old `.env` file: none where there is no file.
pub open spec fn old_lines(existing: Option<Seq<char>>) -> Seq<Seq<char>> {
    match existing {
        Some(t) => text_lines(t),
        None => Seq::empty(),
    }
}

/// The lines of `text`, as `text.lines()`.
pub fn env_lines(text: &str) -> (lines: Vec<String>)
    ensures
        strings_view(lines@) == text_lines(text@),
{
    let v = chars_of(text);
    let ghost s = text@;
    let mut lines: Vec<String> = Vec::new();
    let mut start: usize = 0;
    let mut i: usize = 0;
    assert(s.skip(0) =~= s);
    assert(s.subrange(0, 0) =~= Seq::<char>::empty());
    assert(strings_view(lines@) + text_lines(s) =~= text_lines(s));
    while i < v.len()
        invariant
            v@ == s,
            s == text@,
            start <= i <= v.len(),
            strings_view(lines@) + lines_from(s.skip(i as int), s.subrange(start as int, i as int))
                == text_lines(s),
        decreases v.len() - i,
    {
        let ghost cur = s.subrange(start as int, i as int);
        let ghost rest = s.skip(i as int);
        assert(rest[0] == s[i as int]);
        assert(rest.drop_first() =~= s.skip(i + 1));
        if v[i] == '\n' {
            let end = if i > start && v[i - 1] == '\r' {
                i - 1
            } else {
                i
            };
            let line = String::from_str(text.substring_char(start, end));
            assert(line@ =~= strip_cr(cur));
            let ghost before = strings_view(lines@);
            lines.push(line);
            assert(strings_view(lines@) =~= before.push(line@));
            assert(lines_from(rest, cur) == seq![strip_cr(cur)] + lines_from(
                s.skip(i + 1),
                Seq::empty(),
            ));
            assert(s.subrange(i + 1, i + 1) =~= Seq::<char>::empty());
            assert(strings_view(lines@) + lines_from(s.skip(i + 1), Seq::empty()) =~= before + (
            seq![strip_cr(cur)] + lines_from(s.skip(i + 1), Seq::empty())));
            i = i + 1;
            start = i;
        } else {
            assert(cur.push(s[i as int]) =~= s.subrange(start as int, i + 1));
            i = i + 1;
        }
    }
    let ghost cur = s.subrange(start as int, i as int);
    assert(s.skip(i as int) =~= Seq::<char>::empty());
    if start < v.len() {
        let line = String::from_str(text.substring_char(start, v.len()));
        let ghost before = strings_view(lines@);
        lines.push(line);
        assert(strings_view(lines@) =~= before + seq![cur]);
    } else {
        assert(strings_view(lines@) + Seq::<Seq<char>>::empty() =~= strings_view(lines@));
    }
    lines
}

proof fn lemma_upsert_at(lines: Seq<Seq<char>>, key: Seq<char>, value: Seq<char>, j: int)
    requires
        0 <= j <= lines.len(),
        forall|k: int| 0 <= k < j ==> !starts_with_seq(#[trigger] lines[k], env_prefix(key)),
        j < lines.len() ==> starts_with_seq(lines[j], env_prefix(key)),
    ensures
        j < lines.len() ==> upsert(lines, key, value) == lines.update(j, env_line(key, value)),
        j == lines.len() ==> upsert(lines, key, value) == lines.push(env_line(key, value)),
    decreases j,
{
    if lines.len() == 0 {
        assert(seq![env_line(key, value)] =~= lines.push(env_line(key, value)));
    } else if j == 0 {
    } else {
        let rest = lines.drop_first();
        assert forall|k: int| 0 <= k < j - 1 implies !starts_with_seq(
            #[trigger] rest[k],
            env_prefix(key),
        ) by {
            assert(rest[k] == lines[k + 1]);
        }
        lemma_upsert_at(rest, key, value, j - 1);
        assert(!starts_with_seq(lines[0], env_prefix(key)));
        if j < lines.len() {
            assert(seq![lines[0]] + rest.update(j - 1, env_line(key, value)) =~= lines.update(
                j,
                env_line(key, value),
            ));
        } else {
            assert(seq![lines[0]] + rest.push(env_line(key, value)) =~= lines.push(
                env_line(key, value),
            ));
        }
    }
}

/// Sets `key` to `value` in the lines of the file: the first line that sets
/// `key` is replaced, or a line is added where none sets it.
pub fn upsert_line(lines: &mut Vec<String>, key: &str, value: &str)
    ensures
        strings_view(final(lines)@) == upsert(strings_view(old(lines)@), key@, value@),
{
    let ghost old_lines = strings_view(lines@);
    let mut prefix = String::from_str(key);
    prefix.append(" = ");
    let mut line = prefix.clone();
    line.append(value);
    assert(line@ == env_line(key@, value@));
    let mut j: usize = 0;
    while j < lines.len()
        invariant
            old_lines == strings_view(lines@),
            old_lines == strings_view(old(lines)@),
            prefix@ == env_prefix(key@),
            line@ == env_line(key@, value@),
            j <= lines.len(),
            forall|k: int| 0 <= k < j ==> !starts_with_seq(#[trigger] old_lines[k], env_prefix(key@)),
        decreases lines.len() - j,
    {
        if starts_with(lines[j].as_str(), prefix.as_str()) {
            proof {
                lemma_upsert_at(old_lines, key@, value@, j as int);
            }
            let ghost lv = line@;
            let ghost vec_before = lines@;
            lines.set(j, line);
            assert(lines@ == vec_before.update(j as int, line));
            assert(strings_view(lines@) =~= old_lines.update(j as int, lv));
            return;
        }
        j = j + 1;
    }
    proof {
        lemma_upsert_at(old_lines, key@, value@, j as int);
    }
    lines.push(line);
    assert(strings_view(lines@) =~= old_lines.push(env_line(key@, value@)));
}

/// The file content of `lines`: each line followed by `\n`.
pub fn render_env(lines: &Vec<String>) -> (text: String)
    ensures
        text@ == joined(strings_view(lines@)),
{
    let ghost ls = strings_view(lines@);
    let mut text = String::new();
    let mut i: usize = 0;
    assert(ls.skip(0) =~= ls);
    assert(text@ + joined(ls) =~= joined(ls));
    while i < lines.len()
        invariant
            ls == strings_view(lines@),
            i <= lines.len(),
            text@ + joined(ls.skip(i as int)) == joined(ls),
        decreases lines.len() - i,
    {
        let ghost before = text@;
        let ghost rest = ls.skip(i as int);
        assert(rest[0] == ls[i as int]);
        assert(rest.drop_first() =~= ls.skip(i + 1));
        text.append(lines[i].as_str());
        text.append("\n");
        proof {
            reveal_strlit("\n");
        }
        assert(text@ + joined(ls.skip(i + 1)) =~= before + joined(rest));
        i = i + 1;
    }
    assert(ls.skip(i as int) =~= Seq::<Seq<char>>::empty());
    assert(text@ + Seq::<char>::empty() =~= text@);
    text
}

/// The new content of the `.env` file, given its old content (`None` where
/// there is no file), once `key` is set to `value`.
pub fn set_env_content(existing: Option<&str>, key: &str, value: &str) -> (text: String)
    ensures
        text@ == env_content(
            match existing {
                Some(t) => Some(t@),
                None => None,
            },
            key@,
            value@,
        ),
{
    let mut lines = match existing {
        Some(t) => env_lines(t),
        None => Vec::new(),
    };
    upsert_line(&mut lines, key, value);
    render_env(&lines)
}

/// No character of `s` is a line feed.
pub open spec fn one_line(s: Seq<char>) -> bool {
    forall|i: int| 0 <= i < s.len() ==> s[i] != '\n'
}

/// No line holds a line feed.
pub open spec fn all_one_line(lines: Seq<Seq<char>>) -> bool {
    forall|i: int| 0 <= i < lines.len() ==> one_line(#[trigger] lines[i])
}

/// The lines with their final carriage returns dropped.
pub open spec fn stripped(lines: Seq<Seq<char>>) -> Seq<Seq<char>> {
    lines.map_values(|l: Seq<char>| strip_cr(l))
}

/// Setting a key and reading it back gives the value it was set to.
pub proof fn lemma_upsert_reads_back(lines: Seq<Seq<char>>, key: Seq<char>, value: Seq<char>)
    ensures
        env_value(upsert(lines, key, value), key) == Some(value),
    decreases lines.len(),
{
    let line = env_line(key, value);
    assert(line.subrange(0, env_prefix(key).len() as int) =~= env_prefix(key));
    assert(line.skip(env_prefix(key).len() as int) =~= value);
    if lines.len() == 0 {
    } else if starts_with_seq(lines[0], env_prefix(key)) {
    } else {
        let rest = lines.drop_first();
        lemma_upsert_reads_back(rest, key, value);
        let u = seq![lines[0]] + upsert(rest, key, value);
        assert(u.drop_first() =~= upsert(rest, key, value));
        assert(u[0] == lines[0]);
    }
}

proof fn lemma_env_line_sets_key(key: Seq<char>, value: Seq<char>)
    ensures
        starts_with_seq(env_line(key, value), env_prefix(key)),
{
    assert(env_line(key, value).subrange(0, env_prefix(key).len() as int) =~= env_prefix(key));
}

/// Setting a key twice leaves the lines as setting it once to the second
/// value: the key's line is replaced, not repeated.
pub proof fn lemma_upsert_twice(
    lines: Seq<Seq<char>>,
    key: Seq<char>,
    first: Seq<char>,
    second: Seq<char>,
)
    ensures
        upsert(upsert(lines, key, first), key, second) == upsert(lines, key, second),
    decreases lines.len(),
{
    lemma_env_line_sets_key(key, first);
    if lines.len() == 0 {
        assert(seq![env_line(key, first)].update(0, env_line(key, second)) =~= seq![
            env_line(key, second),
        ]);
    } else if starts_with_seq(lines[0], env_prefix(key)) {
        let u = lines.update(0, env_line(key, first));
        assert(u[0] == env_line(key, first));
        assert(u.update(0, env_line(key, second)) =~= lines.update(0, env_line(key, second)));
    } else {
        let rest = lines.drop_first();
        lemma_upsert_twice(rest, key, first, second);
        let u = seq![lines[0]] + upsert(rest, key, first);
        assert(u[0] == lines[0]);
        assert(u.drop_first() =~= upsert(rest, key, first));
    }
}

proof fn lemma_lines_from_append(a: Seq<char>, s: Seq<char>, cur: Seq<char>)
    requires
        one_line(a),
    ensures
        lines_from(a + s, cur) == lines_from(s, cur + a),
    decreases a.len(),
{
    if a.len() == 0 {
        assert(a + s =~= s);
        assert(cur + a =~= cur);
    } else {
        let t = a + s;
        assert(t[0] == a[0]);
        assert(t.drop_first() =~= a.drop_first() + s);
        lemma_lines_from_append(a.drop_first(), s, cur.push(a[0]));
        assert(cur.push(a[0]) + a.drop_first() =~= cur + a);
    }
}

proof fn lemma_lines_one_line(s: Seq<char>, cur: Seq<char>)
    requires
        one_line(cur),
    ensures
        all_one_line(lines_from(s, cur)),
    decreases s.len(),
{
    if s.len() == 0 {
    } else if s[0] == '\n' {
        lemma_lines_one_line(s.drop_first(), Seq::empty());
        let rest = lines_from(s.drop_first(), Seq::empty());
        let l = seq![strip_cr(cur)] + rest;
        assert forall|i: int| 0 <= i < l.len() implies one_line(#[trigger] l[i]) by {
            if i == 0 {
                assert(forall|j: int| 0 <= j < strip_cr(cur).len() ==> strip_cr(cur)[j] == cur[j]);
            } else {
                assert(l[i] == rest[i - 1]);
            }
        }
    } else {
        lemma_lines_one_line(s.drop_first(), cur.push(s[0]));
    }
}

proof fn lemma_upsert_one_line(lines: Seq<Seq<char>>, key: Seq<char>, value: Seq<char>)
    requires
        all_one_line(lines),
        one_line(env_line(key, value)),
    ensures
        all_one_line(upsert(lines, key, value)),
    decreases lines.len(),
{
    if lines.len() == 0 {
        assert(seq![env_line(key, value)][0] == env_line(key, value));
    } else if starts_with_seq(lines[0], env_prefix(key)) {
        let u = lines.update(0, env_line(key, value));
        assert forall|i: int| 0 <= i < u.len() implies one_line(#[trigger] u[i]) by {
            if i > 0 {
                assert(u[i] == lines[i]);
            }
        }
    } else {
        let rest = lines.drop_first();
        assert forall|i: int| 0 <= i < rest.len() implies one_line(#[trigger] rest[i]) by {
            assert(rest[i] == lines[i + 1]);
        }
        lemma_upsert_one_line(rest, key, value);
        let u = seq![lines[0]] + upsert(rest, key, value);
        assert forall|i: int| 0 <= i < u.len() implies one_line(#[trigger] u[i]) by {
            if i > 0 {
                assert(u[i] == upsert(rest, key, value)[i - 1]);
            } else {
                assert(u[0] == lines[0]);
            }
        }
    }
}

/// Writing lines that hold no line feed and reading the file back gives the
/// same lines, each without its final carriage return.
pub proof fn lemma_lines_of_joined(lines: Seq<Seq<char>>)
    requires
        all_one_line(lines),
    ensures
        text_lines(joined(lines)) == stripped(lines),
    decreases lines.len(),
{
    if lines.len() == 0 {
        assert(stripped(lines) =~= Seq::<Seq<char>>::empty());
    } else {
        let rest = lines.drop_first();
        assert forall|i: int| 0 <= i < rest.len() implies one_line(#[trigger] rest[i]) by {
            assert(rest[i] == lines[i + 1]);
        }
        lemma_lines_of_joined(rest);
        let tail = seq!['\n'] + joined(rest);
        assert(joined(lines) =~= lines[0] + tail);
        assert(one_line(lines[0]));
        lemma_lines_from_append(lines[0], tail, Seq::empty());
        assert(Seq::<char>::empty() + lines[0] =~= lines[0]);
        assert(tail[0] == '\n');
        assert(tail.drop_first() =~= joined(rest));
        assert(seq![strip_cr(lines[0])] + stripped(rest) =~= stripped(lines));
    }
}

proof fn lemma_strip_keeps_prefix(line: Seq<char>, prefix: Seq<char>)
    requires
        prefix.len() > 0,
        prefix.last() != '\r',
    ensures
        starts_with_seq(strip_cr(line), prefix) == starts_with_seq(line, prefix),
        starts_with_seq(line, prefix) ==> strip_cr(line).skip(prefix.len() as int) == strip_cr(
            line.skip(prefix.len() as int),
        ),
{
    let n = prefix.len() as int;
    if line.len() > 0 && line.last() == '\r' {
        let t = line.drop_last();
        if starts_with_seq(line, prefix) {
            assert(line[n - 1] == prefix[n - 1]) by {
                assert(line.subrange(0, n)[n - 1] == line[n - 1]);
            }
            assert(line.len() > n);
            assert(t.subrange(0, n) =~= line.subrange(0, n));
            assert(t.skip(n) =~= line.skip(n).drop_last());
        }
        if starts_with_seq(t, prefix) {
            assert(t.subrange(0, n) =~= line.subrange(0, n));
        }
    }
}

proof fn lemma_env_value_stripped(lines: Seq<Seq<char>>, key: Seq<char>)
    ensures
        env_value(stripped(lines), key) == match env_value(lines, key) {
            Some(v) => Some(strip_cr(v)),
            None => None,
        },
    decreases lines.len(),
{
    let p = env_prefix(key);
    reveal_strlit(" = ");
    assert(p.last() == ' ');
    if lines.len() > 0 {
        lemma_strip_keeps_prefix(lines[0], p);
        assert(stripped(lines)[0] == strip_cr(lines[0]));
        assert(stripped(lines).drop_first() =~= stripped(lines.drop_first()));
        lemma_env_value_stripped(lines.drop_first(), key);
    }
}

/// Setting `key` to `value` in the `.env` file and reading the file back
/// gives `value` for `key`, for a key and value that hold no line feed and a
/// value that does not end in a carriage return.
pub proof fn lemma_set_env_reads_back(existing: Option<Seq<char>>, key: Seq<char>, value: Seq<char>)
    requires
        one_line(key),
        one_line(value),
        !(value.len() > 0 && value.last() == '\r'),
    ensures
        env_value(text_lines(env_content(existing, key, value)), key) == Some(value),
{
    let lines = match existing {
        Some(t) => text_lines(t),
        None => Seq::empty(),
    };
    lemma_lines_one_line(
        match existing {
            Some(t) => t,
            None => Seq::empty(),
        },
        Seq::empty(),
    );
    let line = env_line(key, value);
    reveal_strlit(" = ");
    assert forall|i: int| 0 <= i < line.len() implies line[i] != '\n' by {
        if i < key.len() {
            assert(line[i] == key[i]);
        } else if i >= key.len() + 3 {
            assert(line[i] == value[i - key.len() - 3]);
        } else {
            assert(line[i] == " = "@[i - key.len()]);
        }
    }
    lemma_upsert_one_line(lines, key, value);
    let u = upsert(lines, key, value);
    lemma_lines_of_joined(u);
    lemma_env_value_stripped(u, key);
    lemma_upsert_reads_back(lines, key, value);
}

/// A line that does not end in a carriage return.
pub open spec fn no_final_cr(line: Seq<char>) -> bool {
    !(line.len() > 0 && line.last() == '\r')
}

proof fn lemma_upsert_no_final_cr(lines: Seq<Seq<char>>, key: Seq<char>, value: Seq<char>)
    requires
        forall|i: int| 0 <= i < lines.len() ==> no_final_cr(#[trigger] lines[i]),
        no_final_cr(env_line(key, value)),
    ensures
        forall|i: int|
            0 <= i < upsert(lines, key, value).len() ==> no_final_cr(
                #[trigger] upsert(lines, key, value)[i],
            ),
    decreases lines.len(),
{
    if lines.len() == 0 {
        assert(seq![env_line(key, value)][0] == env_line(key, value));
    } else if starts_with_seq(lines[0], env_prefix(key)) {
        let u = lines.update(0, env_line(key, value));
        assert forall|i: int| 0 <= i < u.len() implies no_final_cr(#[trigger] u[i]) by {
            if i > 0 {
                assert(u[i] == lines[i]);
            }
        }
    } else {
        let rest = lines.drop_first();
        assert forall|i: int| 0 <= i < rest.len() implies no_final_cr(#[trigger] rest[i]) by {
            assert(rest[i] == lines[i + 1]);
        }
        lemma_upsert_no_final_cr(rest, key, value);
        let u = seq![lines[0]] + upsert(rest, key, value);
        assert forall|i: int| 0 <= i < u.len() implies no_final_cr(#[trigger] u[i]) by {
            if i > 0 {
                assert(u[i] == upsert(rest, key, value)[i - 1]);
            } else {
                assert(u[0] == lines[0]);
            }
        }
    }
}

/// Setting a key in the `.env` file twice gives the file that setting it
/// once to the second value gives, for a key and first value that hold no
/// line feed, a first value that does not end in a carriage return, and an
/// old file none of whose lines ends in a carriage return.
pub proof fn lemma_set_env_twice(
    existing: Option<Seq<char>>,
    key: Seq<char>,
    first: Seq<char>,
    second: Seq<char>,
)
    requires
        one_line(key),
        one_line(first),
        no_final_cr(first),
        forall|i: int|
            0 <= i < old_lines(existing).len() ==> no_final_cr(#[trigger] old_lines(existing)[i]),
    ensures
        env_content(Some(env_content(existing, key, first)), key, second) == env_content(
            existing,
            key,
            second,
        ),
{
    let text = match existing {
        Some(t) => t,
        None => Seq::empty(),
    };
    let lines = old_lines(existing);
    assert(lines == text_lines(text)) by {
        if existing is None {
            assert(text_lines(Seq::<char>::empty()) =~= Seq::<Seq<char>>::empty());
        }
    }
    lemma_lines_one_line(text, Seq::empty());
    let line = env_line(key, first);
    reveal_strlit(" = ");
    assert forall|i: int| 0 <= i < line.len() implies line[i] != '\n' by {
        if i < key.len() {
            assert(line[i] == key[i]);
        } else if i >= key.len() + 3 {
            assert(line[i] == first[i - key.len() - 3]);
        } else {
            assert(line[i] == " = "@[i - key.len()]);
        }
    }
    assert(no_final_cr(line)) by {
        if first.len() > 0 {
            assert(line.last() == first.last());
        } else {
            assert(line.last() == ' ');
        }
    }
    lemma_upsert_one_line(lines, key, first);
    lemma_upsert_no_final_cr(lines, key, first);
    let u = upsert(lines, key, first);
    lemma_lines_of_joined(u);
    assert(stripped(u) =~= u);
    lemma_upsert_twice(lines, key, first, second);
}

} // verus!
