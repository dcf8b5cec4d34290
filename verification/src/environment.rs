//! The environment of a run: layers merged by precedence, placeholder
//! expansion, and the check for required variables.

use crate::config::EnvConfig;
use crate::text::{
    chars_of, clean, cleaned, contains_text, find_char, first_at, has_text, lemma_first_at_bounds,
    texts, trim, trimmed,
};
use vstd::prelude::*;
use vstd::string::*;

verus! {

/// A mapping from variable names to values.
pub type Table = Map<Seq<char>, Seq<char>>;

/// `base` after the entries of `entries` were written to it in order: a later
/// write of a name replaces an earlier one.
pub open spec fn overlay(base: Table, entries: Seq<(String, String)>) -> Table
    decreases entries.len(),
{
    if entries.len() == 0 {
        base
    } else {
        overlay(base, entries.drop_last()).insert(entries.last().0@, entries.last().1@)
    }
}

/// The mapping that a list of entries stands for.
pub open spec fn table(entries: Seq<(String, String)>) -> Table {
    overlay(Map::empty(), entries)
}

/// `m` after one line of an environment file was read. Blank lines, comment
/// lines and lines without `=` change nothing; any other line defines the
/// name before the first `=` as what follows it, both stripped of surrounding
/// white space and quote characters.
pub open spec fn load_line(m: Table, line: Seq<char>) -> Table {
    let t = trim(line, None);
    let eq = first_at(t, 0, '=');
    if t.len() == 0 || t[0] == '#' || eq >= t.len() {
        m
    } else {
        m.insert(clean(t.subrange(0, eq)), clean(t.subrange(eq + 1, t.len() as int)))
    }
}

/// `m` after the lines of `content` that start at or after `from` were read
/// in order.
pub open spec fn load_from(m: Table, content: Seq<char>, from: int) -> Table
    decreases content.len() - from,
{
    let end = first_at(content, from, '\n');
    if from < 0 || from > content.len() || end < from || end > content.len() {
        m
    } else {
        let next = load_line(m, content.subrange(from, end));
        if end >= content.len() {
            next
        } else {
            load_from(next, content, end + 1)
        }
    }
}

/// `m` after the environment file `content` was read.
pub open spec fn load_text(m: Table, content: Seq<char>) -> Table {
    load_from(m, content, 0)
}

/// `m` after the environment files `files` were read in order; a file that
/// does not exist is given as `None` and changes nothing.
pub open spec fn load_files(m: Table, files: Seq<Option<String>>) -> Table
    decreases files.len(),
{
    if files.len() == 0 {
        m
    } else {
        let before = load_files(m, files.drop_last());
        match files.last() {
            Some(content) => load_text(before, content@),
            None => before,
        }
    }
}

/// The layered environment: files in order, then the inline table, then the
/// process environment, each written over what came before.
pub open spec fn resolve(
    base: Table,
    files: Seq<Option<String>>,
    inline: Seq<(String, String)>,
    process: Seq<(String, String)>,
) -> Table {
    overlay(overlay(load_files(base, files), inline), process)
}

/// The least index at or after `from` at which `${` starts; `s.len()` if
/// there is none.
pub open spec fn open_at(s: Seq<char>, from: int) -> int
    decreases s.len() - from,
{
    if from < 0 || from + 1 >= s.len() {
        s.len() as int
    } else if s[from] == '$' && s[from + 1] == '{' {
        from
    } else {
        open_at(s, from + 1)
    }
}

/// The value of `name` in `env`, or the empty string where it has none.
pub open spec fn value_of(env: Table, name: Seq<char>) -> Seq<char> {
    if env.contains_key(name) {
        env[name]
    } else {
        Seq::empty()
    }
}

/// The part of `text` from `from` on with its placeholders replaced, left to
/// right. A placeholder runs from `${` to the next `}`; what is put in its
/// place is not scanned again. From a `${` that is never closed on, the text
/// stays as it is.
pub open spec fn expand_from(text: Seq<char>, env: Table, from: int) -> Seq<char>
    decreases text.len() - from,
{
    let start = open_at(text, from);
    let end = first_at(text, start, '}');
    if from < 0 || from > text.len() {
        Seq::empty()
    } else if start < from || start >= text.len() || end < start + 2 || end >= text.len() {
        text.subrange(from, text.len() as int)
    } else {
        text.subrange(from, start) + value_of(env, text.subrange(start + 2, end)) + expand_from(
            text,
            env,
            end + 1,
        )
    }
}

/// `text` with every `${NAME}` placeholder replaced by the value of `NAME`.
pub open spec fn expand(text: Seq<char>, env: Table) -> Seq<char> {
    expand_from(text, env, 0)
}

/// Those of `required` that `env` does not define, in the order given.
pub open spec fn missing_of(required: Seq<&str>, env: Table) -> Seq<Seq<char>>
    decreases required.len(),
{
    if required.len() == 0 {
        Seq::empty()
    } else {
        let rest = missing_of(required.drop_last(), env);
        if env.contains_key(required.last()@) {
            rest
        } else {
            rest.push(required.last()@)
        }
    }
}

/// `env` with the value of every name that holds `API_KEY` replaced by a
/// row of asterisks.
pub open spec fn masked(env: Table) -> Table {
    Map::new(
        |k: Seq<char>| env.contains_key(k),
        |k: Seq<char>|
            if contains_text(k, "API_KEY"@) {
                "********"@
            } else {
                env[k]
            },
    )
}

/// `names` joined by a comma and a space.
pub open spec fn joined(names: Seq<Seq<char>>) -> Seq<char>
    decreases names.len(),
{
    if names.len() == 0 {
        Seq::empty()
    } else if names.len() == 1 {
        names[0]
    } else {
        joined(names.drop_last()) + seq![',', ' '] + names.last()
    }
}

/// `open_at` gives an index at or after `from` at which `${` stands, or the
/// length.
pub proof fn lemma_open_at_bounds(s: Seq<char>, from: int)
    requires
        0 <= from <= s.len(),
    ensures
        from <= open_at(s, from) <= s.len(),
        open_at(s, from) < s.len() ==> open_at(s, from) + 1 < s.len() && s[open_at(s, from)] == '$'
            && s[open_at(s, from) + 1] == '{',
    decreases s.len() - from,
{
    if from + 1 < s.len() && !(s[from] == '$' && s[from + 1] == '{') {
        lemma_open_at_bounds(s, from + 1);
    }
}

/// Whether `upper` written over `lower` gives `merged` at `key`: the value of
/// `upper` where it defines `key`, and else what `lower` has.
pub open spec fn wins_at(merged: Table, upper: Table, lower: Table, key: Seq<char>) -> bool {
    if upper.contains_key(key) {
        merged.contains_key(key) && merged[key] == upper[key]
    } else {
        merged.contains_key(key) == lower.contains_key(key) && (lower.contains_key(key)
            ==> merged[key] == lower[key])
    }
}

/// The mapping that one environment file stands for.
pub open spec fn file_table(content: Seq<char>) -> Table {
    load_text(Map::empty(), content)
}

/// Entries written over a base win over it, key by key.
pub proof fn lemma_overlay_wins(base: Table, entries: Seq<(String, String)>, key: Seq<char>)
    ensures
        wins_at(overlay(base, entries), table(entries), base, key),
    decreases entries.len(),
{
    if entries.len() > 0 {
        lemma_overlay_wins(base, entries.drop_last(), key);
    }
}

/// The lines of a file from `from` on, read over a base, win over it, key
/// by key.
proof fn lemma_load_from_wins(m: Table, content: Seq<char>, from: int, key: Seq<char>)
    ensures
        wins_at(load_from(m, content, from), load_from(Map::empty(), content, from), m, key),
    decreases content.len() - from,
{
    let end = first_at(content, from, '\n');
    if !(from < 0 || from > content.len() || end < from || end > content.len()) {
        if end < content.len() {
            let line = content.subrange(from, end);
            lemma_load_from_wins(load_line(m, line), content, end + 1, key);
            lemma_load_from_wins(load_line(Map::empty(), line), content, end + 1, key);
        }
    }
}

/// A file read over a base wins over it, key by key.
pub proof fn lemma_load_text_wins(m: Table, content: Seq<char>, key: Seq<char>)
    ensures
        wins_at(load_text(m, content), file_table(content), m, key),
{
    lemma_load_from_wins(m, content, 0, key);
}

/// Whether the file at index `k` of `files` exists and defines `key`.
pub open spec fn file_defines(files: Seq<Option<String>>, k: int, key: Seq<char>) -> bool {
    0 <= k < files.len() && files[k].is_some() && file_table(files[k].unwrap()@).contains_key(
        key,
    )
}

/// Precedence among the layers: the resolved value of a key is that of the
/// process environment where it defines the key; else that of the inline
/// table where it does; else what the files, read over the base, give.
pub proof fn law_layer_precedence(
    base: Table,
    files: Seq<Option<String>>,
    inline: Seq<(String, String)>,
    process: Seq<(String, String)>,
    key: Seq<char>,
)
    ensures
        wins_at(
            resolve(base, files, inline, process),
            table(process),
            overlay(load_files(base, files), inline),
            key,
        ),
        wins_at(
            overlay(load_files(base, files), inline),
            table(inline),
            load_files(base, files),
            key,
        ),
{
    lemma_overlay_wins(overlay(load_files(base, files), inline), process, key);
    lemma_overlay_wins(load_files(base, files), inline, key);
}

/// Precedence among the files: the last listed file that defines a key gives
/// its value.
pub proof fn law_file_precedence(
    base: Table,
    files: Seq<Option<String>>,
    k: int,
    key: Seq<char>,
)
    requires
        file_defines(files, k, key),
        forall|j: int| k < j < files.len() ==> !file_defines(files, j, key),
    ensures
        load_files(base, files).contains_key(key),
        load_files(base, files)[key] == file_table(files[k].unwrap()@)[key],
    decreases files.len(),
{
    let front = files.drop_last();
    let last = files.len() - 1;
    if files.last().is_some() {
        lemma_load_text_wins(load_files(base, front), files.last().unwrap()@, key);
    }
    if k < last {
        assert(!file_defines(files, last, key));
        assert(front[k] == files[k]);
        assert forall|j: int| k < j < front.len() implies !file_defines(front, j, key) by {
            assert(front[j] == files[j]);
            assert(!file_defines(files, j, key));
        }
        law_file_precedence(base, front, k, key);
    }
}

/// A key that no file defines keeps what the base has.
pub proof fn law_files_keep_base(base: Table, files: Seq<Option<String>>, key: Seq<char>)
    requires
        forall|j: int| 0 <= j < files.len() ==> !file_defines(files, j, key),
    ensures
        load_files(base, files).contains_key(key) == base.contains_key(key),
        base.contains_key(key) ==> load_files(base, files)[key] == base[key],
    decreases files.len(),
{
    if files.len() > 0 {
        let front = files.drop_last();
        let last = files.len() - 1;
        assert(!file_defines(files, last, key));
        if files.last().is_some() {
            lemma_load_text_wins(load_files(base, front), files.last().unwrap()@, key);
        }
        assert forall|j: int| 0 <= j < front.len() implies !file_defines(front, j, key) by {
            assert(front[j] == files[j]);
            assert(!file_defines(files, j, key));
        }
        law_files_keep_base(base, front, key);
    }
}

/// The required variables that were found missing.
#[derive(Debug)]
pub struct MissingVariables {
    pub names: Vec<String>,
}

impl MissingVariables {
    /// The names as the sequences of characters they hold.
    pub open spec fn names_view(&self) -> Seq<Seq<char>> {
        texts(self.names@)
    }

    /// The text of the failure as it is shown.
    pub open spec fn message_view(&self) -> Seq<char> {
        "Missing required environment variables: "@ + joined(self.names_view())
    }

    /// The failure as a line of text that lists every missing name.
    pub fn message(&self) -> (r: String)
        ensures
            r@ == self.message_view(),
    {
        let mut r: String = "Missing required environment variables: ".to_owned();
        r.append(join_names(&self.names).as_str());
        r
    }
}

/// Joins `names` by a comma and a space.
pub fn join_names(names: &Vec<String>) -> (r: String)
    ensures
        r@ == joined(texts(names@)),
{
    let mut r: String = String::new();
    let mut i: usize = 0;
    assert(joined(texts(names@).take(0)) =~= Seq::<char>::empty());
    while i < names.len()
        invariant
            i <= names@.len(),
            r@ == joined(texts(names@).take(i as int)),
        decreases names@.len() - i,
    {
        proof {
            reveal_strlit(", ");
            let done = texts(names@).take(i as int);
            let next = texts(names@).take(i as int + 1);
            assert(next.drop_last() =~= done);
            assert(next.last() == names@[i as int]@);
            assert(", "@ =~= seq![',', ' ']);
            if i == 0 {
                assert(next[0] == names@[0]@);
            }
        }
        if i > 0 {
            r.append(", ");
        }
        r.append(names[i].as_str());
        proof {
            let done = texts(names@).take(i as int);
            let next = texts(names@).take(i as int + 1);
            if i == 0 {
                assert(r@ =~= joined(next));
            } else {
                assert(r@ =~= joined(done) + seq![',', ' '] + next.last());
            }
        }
        i += 1;
    }
    proof {
        assert(texts(names@).take(names@.len() as int) =~= texts(names@));
    }
    r
}

/// Whether no name is listed twice in `entries`.
pub open spec fn distinct_names(entries: Seq<(String, String)>) -> bool {
    forall|i: int, j: int|
        0 <= i < j < entries.len() ==> (#[trigger] entries[i]).0@ != (#[trigger] entries[j]).0@
}

/// Replacing the entry of a name, in a list that holds each name once,
/// writes the new value for that name.
proof fn lemma_table_update(entries: Seq<(String, String)>, i: int, entry: (String, String))
    requires
        0 <= i < entries.len(),
        entries[i].0@ == entry.0@,
        distinct_names(entries),
    ensures
        table(entries.update(i, entry)) == table(entries).insert(entry.0@, entry.1@),
        distinct_names(entries.update(i, entry)),
    decreases entries.len(),
{
    let last = entries.len() - 1;
    let front = entries.drop_last();
    if i == last {
        assert(entries.update(i, entry).drop_last() =~= front);
        assert(table(front).insert(entries[last].0@, entries[last].1@).insert(
            entry.0@,
            entry.1@,
        ) =~= table(front).insert(entry.0@, entry.1@));
    } else {
        assert(entries.update(i, entry).drop_last() =~= front.update(i, entry));
        assert(distinct_names(front)) by {
            assert forall|a: int, b: int| 0 <= a < b < front.len() implies (#[trigger] front[a]).0@
                != (#[trigger] front[b]).0@ by {
                assert(entries[a].0@ != entries[b].0@);
            }
        }
        lemma_table_update(front, i, entry);
        assert(entries[i].0@ != entries[last].0@);
        assert(table(front).insert(entry.0@, entry.1@).insert(
            entries[last].0@,
            entries[last].1@,
        ) =~= table(front).insert(entries[last].0@, entries[last].1@).insert(
            entry.0@,
            entry.1@,
        ));
    }
    assert forall|a: int, b: int| 0 <= a < b < entries.len() implies (#[trigger] entries.update(
        i,
        entry,
    )[a]).0@ != (#[trigger] entries.update(i, entry)[b]).0@ by {
        assert(entries[a].0@ != entries[b].0@);
    }
}

/// A list in which `name` does not occur defines no such name.
pub proof fn lemma_unlisted_is_undefined(entries: Seq<(String, String)>, name: Seq<char>)
    requires
        forall|i: int| 0 <= i < entries.len() ==> (#[trigger] entries[i]).0@ != name,
    ensures
        !table(entries).contains_key(name),
    decreases entries.len(),
{
    if entries.len() > 0 {
        let front = entries.drop_last();
        assert forall|i: int| 0 <= i < front.len() implies (#[trigger] front[i]).0@ != name by {
            assert(front[i] == entries[i]);
        }
        lemma_unlisted_is_undefined(front, name);
        assert(entries.last() == entries[entries.len() - 1]);
    }
}

/// The resolved environment of one run: each name is held once, with its
/// value.
#[derive(Debug)]
pub struct Environment {
    vars: Vec<(String, String)>,
}

impl View for Environment {
    type V = Map<Seq<char>, Seq<char>>;

    closed spec fn view(&self) -> Map<Seq<char>, Seq<char>> {
        table(self.vars@)
    }
}

impl Environment {
    /// An environment that defines nothing.
    pub fn new() -> (r: Self)
        ensures
            r@ == Map::<Seq<char>, Seq<char>>::empty(),
    {
        Environment { vars: Vec::new() }
    }

    /// No name is listed twice.
    #[verifier::type_invariant]
    spec fn distinct(&self) -> bool {
        distinct_names(self.vars@)
    }

    /// Defines `key` as `value`, replacing what it was defined as before.
    pub fn set(&mut self, key: String, value: String)
        ensures
            final(self)@ == old(self)@.insert(key@, value@),
    {
        proof {
            use_type_invariant(&*self);
        }
        let mut vars: Vec<(String, String)> = Vec::new();
        core::mem::swap(&mut self.vars, &mut vars);
        let mut i: usize = 0;
        while i < vars.len() && !(vars[i].0 == key)
            invariant
                i <= vars@.len(),
                forall|k: int| 0 <= k < i ==> (#[trigger] vars@[k]).0@ != key@,
            decreases vars@.len() - i,
        {
            i += 1;
        }
        if i < vars.len() {
            proof {
                lemma_table_update(vars@, i as int, (key, value));
            }
            vars.set(i, (key, value));
        } else {
            proof {
                assert(vars@.push((key, value)).drop_last() =~= vars@);
            }
            vars.push((key, value));
        }
        core::mem::swap(&mut self.vars, &mut vars);
    }

    /// The value of `key`, looked up as it is written.
    pub fn get(&self, key: &str) -> (r: Option<&String>)
        ensures
            r.is_some() == self@.contains_key(key@),
            r.is_some() ==> r.unwrap()@ == self@[key@],
    {
        let wanted: String = key.to_owned();
        let mut i: usize = self.vars.len();
        assert(self.vars@.take(i as int) =~= self.vars@);
        while i > 0
            invariant
                i <= self.vars@.len(),
                wanted@ == key@,
                self@.contains_key(key@) == table(self.vars@.take(i as int)).contains_key(key@),
                self@.contains_key(key@) ==> self@[key@] == table(self.vars@.take(i as int))[key@],
            decreases i,
        {
            proof {
                assert(self.vars@.take(i as int).drop_last() =~= self.vars@.take(i as int - 1));
            }
            if self.vars[i - 1].0 == wanted {
                return Some(&self.vars[i - 1].1);
            }
            i -= 1;
        }
        proof {
            assert(self.vars@.take(0) =~= Seq::<(String, String)>::empty());
        }
        None
    }

    /// The definitions in the order in which `get_vars` lists them: a name
    /// stands where it was first defined.
    pub closed spec fn listing(&self) -> Seq<(String, String)> {
        self.vars@
    }

    /// Every definition: each defined name once, with its value.
    pub fn get_vars(&self) -> (r: &Vec<(String, String)>)
        ensures
            r@ == self.listing(),
            table(r@) == self@,
            distinct_names(r@),
    {
        proof {
            use_type_invariant(self);
        }
        &self.vars
    }

    /// A copy of every definition, as `get_vars` gives them.
    pub fn entries(&self) -> (r: Vec<(String, String)>)
        ensures
            table(r@) == self@,
            distinct_names(r@),
    {
        proof {
            use_type_invariant(self);
        }
        let mut r: Vec<(String, String)> = Vec::new();
        let mut i: usize = 0;
        while i < self.vars.len()
            invariant
                i <= self.vars@.len(),
                r@.len() == i,
                forall|k: int| 0 <= k < i ==> (#[trigger] r@[k]).0@ == self.vars@[k].0@,
                table(r@) == table(self.vars@.take(i as int)),
            decreases self.vars@.len() - i,
        {
            let ghost before = r@;
            let entry = (self.vars[i].0.clone(), self.vars[i].1.clone());
            r.push(entry);
            proof {
                assert(r@.drop_last() =~= before);
                assert(self.vars@.take(i as int + 1).drop_last() =~= self.vars@.take(i as int));
            }
            i += 1;
        }
        proof {
            assert(self.vars@.take(self.vars@.len() as int) =~= self.vars@);
            assert forall|a: int, b: int| 0 <= a < b < r@.len() implies (#[trigger] r@[a]).0@ != (
            #[trigger] r@[b]).0@ by {
                assert(self.vars@[a].0@ != self.vars@[b].0@);
            }
        }
        r
    }

    /// This environment with its sensitive values masked, for display.
    pub fn masked(&self) -> (r: Environment)
        ensures
            r@ == masked(self@),
    {
        let mut r = Environment::new();
        let mut i: usize = 0;
        assert(masked(table(self.vars@.take(0))) =~= Map::<Seq<char>, Seq<char>>::empty());
        while i < self.vars.len()
            invariant
                i <= self.vars@.len(),
                r@ == masked(table(self.vars@.take(i as int))),
            decreases self.vars@.len() - i,
        {
            let key: String = self.vars[i].0.clone();
            let value: String = if has_text(key.as_str(), "API_KEY") {
                "********".to_owned()
            } else {
                self.vars[i].1.clone()
            };
            proof {
                let before = table(self.vars@.take(i as int));
                assert(self.vars@.take(i as int + 1).drop_last() =~= self.vars@.take(i as int));
                assert(masked(before.insert(self.vars@[i as int].0@, self.vars@[i as int].1@))
                    =~= masked(before).insert(key@, value@));
            }
            r.set(key, value);
            i += 1;
        }
        proof {
            assert(self.vars@.take(self.vars@.len() as int) =~= self.vars@);
        }
        r
    }

    /// Replaces the `${NAME}` placeholders of `text` by the values of the
    /// names; a name without a value gives the empty string.
    pub fn expand_variables(&self, text: &str) -> (r: String)
        ensures
            r@ == expand(text@, self@),
    {
        let chars = chars_of(text);
        let n: usize = chars.len();
        let mut out: String = String::new();
        let mut from: usize = 0;
        loop
            invariant_except_break
                expand(text@, self@) == out@ + expand_from(text@, self@, from as int),
            invariant
                n == chars@.len(),
                chars@ == text@,
                from <= n,
            ensures
                out@ == expand(text@, self@),
            decreases n - from,
        {
            let start: usize = find_open(&chars, from);
            if start >= n {
                out.append(text.substring_char(from, n));
                break;
            }
            let end: usize = find_char(&chars, start, '}');
            proof {
                lemma_open_at_bounds(chars@, from as int);
                lemma_first_at_bounds(chars@, start as int, '}');
                assert(end >= start + 2);
            }
            if end >= n {
                out.append(text.substring_char(from, n));
                break;
            }
            let ghost before = out@;
            out.append(text.substring_char(from, start));
            let name = text.substring_char(start + 2, end);
            match self.get(name) {
                Some(value) => {
                    out.append(value.as_str());
                },
                None => {},
            }
            proof {
                let piece = text@.subrange(from as int, start as int);
                let value = value_of(self@, text@.subrange(start as int + 2, end as int));
                let rest = expand_from(text@, self@, end as int + 1);
                assert(out@ =~= before + piece + value);
                assert(before + (piece + value + rest) =~= before + piece + value + rest);
            }
            from = end + 1;
        }
        out
    }

    /// Checks that every name of `required_vars` is defined, and otherwise
    /// reports all that are not.
    pub fn validate_required(&self, required_vars: &[&str]) -> (r: Result<(), MissingVariables>)
        ensures
            r.is_ok() == (missing_of(required_vars@, self@).len() == 0),
            r.is_ok() == (forall|k: int|
                0 <= k < required_vars@.len() ==> self@.contains_key(
                    (#[trigger] required_vars@[k])@,
                )),
            r.is_err() ==> r.unwrap_err().names_view() == missing_of(required_vars@, self@),
    {
        let mut missing: Vec<String> = Vec::new();
        let mut i: usize = 0;
        while i < required_vars.len()
            invariant
                i <= required_vars@.len(),
                missing@.len() == missing_of(required_vars@.take(i as int), self@).len(),
                forall|k: int|
                    0 <= k < missing@.len() ==> (#[trigger] missing@[k])@ == missing_of(
                        required_vars@.take(i as int),
                        self@,
                    )[k],
                (missing@.len() == 0) == (forall|k: int|
                    0 <= k < i ==> self@.contains_key((#[trigger] required_vars@[k])@)),
            decreases required_vars@.len() - i,
        {
            proof {
                assert(required_vars@.take(i as int + 1).drop_last() =~= required_vars@.take(
                    i as int,
                ));
            }
            let name: &str = required_vars[i];
            if self.get(name).is_none() {
                missing.push(name.to_owned());
            }
            i += 1;
        }
        proof {
            assert(required_vars@.take(required_vars@.len() as int) =~= required_vars@);
        }
        if missing.len() == 0 {
            Ok(())
        } else {
            let e = MissingVariables { names: missing };
            assert(e.names_view() =~= missing_of(required_vars@, self@));
            Err(e)
        }
    }

    /// Reads one line of an environment file.
    fn load_env_line(&mut self, line: &str)
        ensures
            final(self)@ == load_line(old(self)@, line@),
    {
        let t = trimmed(line, None);
        let chars = chars_of(t);
        let n: usize = chars.len();
        if n == 0 || chars[0] == '#' {
            return;
        }
        let eq: usize = find_char(&chars, 0, '=');
        if eq >= n {
            return;
        }
        let key = cleaned(t.substring_char(0, eq));
        let value = cleaned(t.substring_char(eq + 1, n));
        self.set(key.to_owned(), value.to_owned());
    }

    /// Reads an environment file given as its text, line by line.
    pub fn load_env_text(&mut self, content: &str)
        ensures
            final(self)@ == load_text(old(self)@, content@),
    {
        let chars = chars_of(content);
        let n: usize = chars.len();
        let mut from: usize = 0;
        loop
            invariant_except_break
                load_text(old(self)@, content@) == load_from(self@, content@, from as int),
            invariant
                n == chars@.len(),
                chars@ == content@,
                from <= n,
            ensures
                self@ == load_text(old(self)@, content@),
            decreases n - from,
        {
            let end: usize = find_char(&chars, from, '\n');
            self.load_env_line(content.substring_char(from, end));
            if end >= n {
                break;
            }
            from = end + 1;
        }
    }

    /// Writes the layers of the environment over what is defined already:
    /// the files given by their contents, in order (`None` for a file that
    /// does not exist), then the inline table of `config`, then the process
    /// environment `process`.
    pub fn load_from_config(
        &mut self,
        config: &EnvConfig,
        files: &Vec<Option<String>>,
        process: &Vec<(String, String)>,
    )
        ensures
            final(self)@ == resolve(old(self)@, files@, config.vars@, process@),
    {
        let mut i: usize = 0;
        while i < files.len()
            invariant
                i <= files@.len(),
                self@ == load_files(old(self)@, files@.take(i as int)),
            decreases files@.len() - i,
        {
            proof {
                assert(files@.take(i as int + 1).drop_last() =~= files@.take(i as int));
            }
            match &files[i] {
                Some(content) => {
                    self.load_env_text(content.as_str());
                },
                None => {},
            }
            i += 1;
        }
        proof {
            assert(files@.take(files@.len() as int) =~= files@);
        }
        self.write_all(&config.vars);
        self.write_all(process);
    }

    /// Writes every entry of `entries`, in order.
    fn write_all(&mut self, entries: &Vec<(String, String)>)
        ensures
            final(self)@ == overlay(old(self)@, entries@),
    {
        let mut i: usize = 0;
        while i < entries.len()
            invariant
                i <= entries@.len(),
                self@ == overlay(old(self)@, entries@.take(i as int)),
            decreases entries@.len() - i,
        {
            proof {
                assert(entries@.take(i as int + 1).drop_last() =~= entries@.take(i as int));
            }
            self.set(entries[i].0.clone(), entries[i].1.clone());
            i += 1;
        }
        proof {
            assert(entries@.take(entries@.len() as int) =~= entries@);
        }
    }
}

/// Finds the first `${` in `chars` at or after `from`.
pub fn find_open(chars: &Vec<char>, from: usize) -> (i: usize)
    requires
        from <= chars@.len(),
    ensures
        i == open_at(chars@, from as int),
        from <= i <= chars@.len(),
{
    let n: usize = chars.len();
    let mut i: usize = from;
    while i < n && !(i + 1 < n && chars[i] == '$' && chars[i + 1] == '{')
        invariant
            n == chars@.len(),
            from <= i <= n,
            open_at(chars@, from as int) == open_at(chars@, i as int),
        decreases n - i,
    {
        i += 1;
    }
    i
}

} // verus!
