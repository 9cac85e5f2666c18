//! Catalog loader: scans a build-description text once and produces the
//! ordered list of declared targets.

use vstd::prelude::*;

use crate::project::{Project, TargetEntry};

verus! {

/// The error of a catalog load: a marker line that lacks its expected
/// delimiter.
#[derive(Clone, Copy, PartialEq, Eq, Structural, Debug)]
pub enum ParseError {
    MalformedLine,
}

/// The marker that introduces a target declaration line.
pub open spec fn marker_declare() -> Seq<char> {
    "declare executable"@
}

/// The marker that introduces a target-properties line.
pub open spec fn marker_properties() -> Seq<char> {
    "set target properties"@
}

/// The first position at or after `from` holding `c`, or `s.len()` when no
/// position does.
pub open spec fn find_from(s: Seq<char>, c: char, from: nat) -> nat
    decreases s.len() - from,
{
    if from >= s.len() {
        s.len()
    } else if s[from as int] == c {
        from
    } else {
        find_from(s, c, from + 1)
    }
}

/// Where `find_from` lands: between `from` and the end, on an occurrence of
/// `c` unless there is none, and past every earlier position.
pub proof fn lemma_find_from_props(s: Seq<char>, c: char, from: nat)
    requires
        from <= s.len(),
    ensures
        from <= find_from(s, c, from) <= s.len(),
        find_from(s, c, from) < s.len() ==> s[find_from(s, c, from) as int] == c,
        forall|j: int| from <= j < find_from(s, c, from) ==> s[j] != c,
    decreases s.len() - from,
{
    if from < s.len() && s[from as int] != c {
        lemma_find_from_props(s, c, from + 1);
    }
}

/// A scan that saw no `c` in `[from, i)` and stopped at `i` on `c` or at the
/// end computes exactly `find_from`.
pub proof fn lemma_find_from_at(s: Seq<char>, c: char, from: nat, i: nat)
    requires
        from <= i <= s.len(),
        forall|j: int| from <= j < i ==> s[j] != c,
        i == s.len() || s[i as int] == c,
    ensures
        find_from(s, c, from) == i,
    decreases i - from,
{
    if from < i {
        assert(s[from as int] != c);
        lemma_find_from_at(s, c, from + 1, i);
    }
}

/// A line body without one trailing carriage return.
pub open spec fn strip_cr(line: Seq<char>) -> Seq<char> {
    if line.len() > 0 && line.last() == '\r' {
        line.drop_last()
    } else {
        line
    }
}

/// The lines of a text: the segments between newlines, each without a
/// trailing carriage return, and without a final empty segment.
pub open spec fn split_lines(text: Seq<char>) -> Seq<Seq<char>>
    decreases text.len(),
    via split_lines_decreases
{
    if text.len() == 0 {
        Seq::empty()
    } else {
        let p = find_from(text, '\n', 0);
        if p == text.len() {
            seq![strip_cr(text)]
        } else {
            seq![strip_cr(text.subrange(0, p as int))] + split_lines(
                text.subrange(p + 1 as int, text.len() as int),
            )
        }
    }
}

#[via_fn]
proof fn split_lines_decreases(text: Seq<char>) {
    if text.len() != 0 {
        lemma_find_from_props(text, '\n', 0);
    }
}

/// The identifier on a marker line: the text after the first `(`, up to the
/// first space after it or the end of the line. `None` when the line has no
/// `(`.
pub open spec fn ident_of(line: Seq<char>) -> Option<Seq<char>> {
    let p = find_from(line, '(', 0);
    if p == line.len() {
        None
    } else {
        let rest = line.subrange(p + 1 as int, line.len() as int);
        Some(rest.subrange(0, find_from(rest, ' ', 0) as int))
    }
}

/// The first quoted text on a line: between the first `"` and the next `"`
/// or the end of the line. `None` when the line has no `"`.
pub open spec fn quoted_of(line: Seq<char>) -> Option<Seq<char>> {
    let p = find_from(line, '"', 0);
    if p == line.len() {
        None
    } else {
        let rest = line.subrange(p + 1 as int, line.len() as int);
        Some(rest.subrange(0, find_from(rest, '"', 0) as int))
    }
}

/// The first index whose entry carries the identifier `id`, or
/// `entries.len()` when none does.
pub open spec fn index_of_target(entries: Seq<TargetEntry>, id: Seq<char>) -> nat
    decreases entries.len(),
{
    if entries.len() == 0 {
        0
    } else if entries[0].target == id {
        0
    } else {
        1 + index_of_target(entries.drop_first(), id)
    }
}

/// Where `index_of_target` lands: on the first entry named `id`, or at the
/// end when no entry is.
pub proof fn lemma_index_of_target_props(entries: Seq<TargetEntry>, id: Seq<char>)
    ensures
        index_of_target(entries, id) <= entries.len(),
        index_of_target(entries, id) < entries.len() ==> entries[index_of_target(entries, id) as int].target
            == id,
        forall|j: int| 0 <= j < index_of_target(entries, id) ==> entries[j].target != id,
    decreases entries.len(),
{
    if entries.len() > 0 && entries[0].target != id {
        lemma_index_of_target_props(entries.drop_first(), id);
        assert forall|j: int| 0 <= j < index_of_target(entries, id) implies entries[j].target
            != id by {
            if j > 0 {
                assert(entries.drop_first()[j - 1].target != id);
            }
        }
    }
}

/// A scan that saw no entry named `id` before `i` and stopped at `i` on one
/// or at the end computes exactly `index_of_target`.
pub proof fn lemma_index_of_target_at(entries: Seq<TargetEntry>, id: Seq<char>, i: nat)
    requires
        i <= entries.len(),
        forall|j: int| 0 <= j < i ==> entries[j].target != id,
        i == entries.len() || entries[i as int].target == id,
    ensures
        index_of_target(entries, id) == i,
    decreases entries.len(),
{
    if entries.len() > 0 {
        if i == 0 {
            if entries[0].target != id {
                lemma_index_of_target_props(entries, id);
            }
        } else {
            assert(entries[0].target != id);
            assert forall|j: int| 0 <= j < i - 1 implies entries.drop_first()[j].target != id by {
                assert(entries[j + 1].target != id);
            }
            lemma_index_of_target_at(entries.drop_first(), id, (i - 1) as nat);
        }
    }
}

/// A declaration of `id`: a fresh entry with an empty file name appended,
/// or, when `id` is already declared, that entry reset to an empty file
/// name in place.
pub open spec fn declare_entry(entries: Seq<TargetEntry>, id: Seq<char>) -> Seq<TargetEntry> {
    let j = index_of_target(entries, id);
    if j < entries.len() {
        entries.update(j as int, TargetEntry { target: id, file_name: Seq::empty() })
    } else {
        entries.push(TargetEntry { target: id, file_name: Seq::empty() })
    }
}

/// A properties line for `id`: the entry named `id` gets the file name
/// `name`; without such an entry nothing changes.
pub open spec fn assign_entry(entries: Seq<TargetEntry>, id: Seq<char>, name: Seq<char>) -> Seq<
    TargetEntry,
> {
    let j = index_of_target(entries, id);
    if j < entries.len() {
        entries.update(j as int, TargetEntry { target: id, file_name: name })
    } else {
        entries
    }
}

/// One line of the description applied to the entries gathered so far.
/// `None` marks a fatal parse error: a declaration line without `(`, or a
/// properties line for a declared target without `(` or without `"`.
pub open spec fn parse_line(entries: Seq<TargetEntry>, line: Seq<char>) -> Option<
    Seq<TargetEntry>,
> {
    if marker_declare().is_prefix_of(line) {
        match ident_of(line) {
            Some(id) => Some(declare_entry(entries, id)),
            None => None,
        }
    } else if marker_properties().is_prefix_of(line) {
        match ident_of(line) {
            Some(id) => if index_of_target(entries, id) < entries.len() {
                match quoted_of(line) {
                    Some(name) => Some(assign_entry(entries, id, name)),
                    None => None,
                }
            } else {
                Some(entries)
            },
            None => None,
        }
    } else {
        Some(entries)
    }
}

/// The lines applied in order, starting from the entries gathered so far;
/// a fatal line fails the whole load.
pub open spec fn parse_lines(entries: Seq<TargetEntry>, lines: Seq<Seq<char>>) -> Option<
    Seq<TargetEntry>,
>
    decreases lines.len(),
{
    if lines.len() == 0 {
        Some(entries)
    } else {
        match parse_line(entries, lines[0]) {
            Some(next) => parse_lines(next, lines.drop_first()),
            None => None,
        }
    }
}

/// The catalog a text describes: its targets in declaration order, each
/// with the file name from its last matching properties line, or `None`
/// when some marker line lacks its delimiter.
pub open spec fn catalog_of(text: Seq<char>) -> Option<Seq<TargetEntry>> {
    parse_lines(Seq::empty(), split_lines(text))
}

/// The entries a vector of targets stands for.
pub open spec fn entries_view(v: Seq<Project>) -> Seq<TargetEntry> {
    v.map_values(|p: Project| p@)
}

/// The identifiers of a list of entries, in order.
pub open spec fn targets_of(entries: Seq<TargetEntry>) -> Seq<Seq<char>> {
    entries.map_values(|e: TargetEntry| e.target)
}

/// No identifier occurs twice.
pub open spec fn distinct_idents(ids: Seq<Seq<char>>) -> bool {
    forall|i: int, j: int| 0 <= i < j < ids.len() ==> ids[i] != ids[j]
}

/// The identifiers the declaration lines introduce, extending `acc`: each
/// line that declares an identifier not seen before appends it.
pub open spec fn declared_order(acc: Seq<Seq<char>>, lines: Seq<Seq<char>>) -> Seq<Seq<char>>
    decreases lines.len(),
{
    if lines.len() == 0 {
        acc
    } else {
        let acc2 = if marker_declare().is_prefix_of(lines[0]) && ident_of(lines[0]) is Some
            && !acc.contains(ident_of(lines[0])->0) {
            acc.push(ident_of(lines[0])->0)
        } else {
            acc
        };
        declared_order(acc2, lines.drop_first())
    }
}

/// Whether a line declares the target `id`.
pub open spec fn declares(line: Seq<char>, id: Seq<char>) -> bool {
    marker_declare().is_prefix_of(line) && ident_of(line) == Some(id)
}

/// Whether a line is a properties line naming the target `id`.
pub open spec fn assigns_name(line: Seq<char>, id: Seq<char>) -> bool {
    &&& !marker_declare().is_prefix_of(line)
    &&& marker_properties().is_prefix_of(line)
    &&& ident_of(line) == Some(id)
}

/// What one line does to the file name the target `id` carries: a
/// declaration of `id` resets it to empty, a properties line naming `id`
/// assigns its quoted text, and any other line leaves it alone.
pub open spec fn name_after_line(cur: Seq<char>, line: Seq<char>, id: Seq<char>) -> Seq<char> {
    if declares(line, id) {
        Seq::empty()
    } else if assigns_name(line, id) && quoted_of(line) is Some {
        quoted_of(line)->0
    } else {
        cur
    }
}

/// The file name the lines leave on the target `id`, starting from `cur`:
/// since every declaration of `id` resets it, this is the quoted text of
/// the last properties line naming `id` after its last declaration, or
/// empty when no such line follows it.
pub open spec fn final_name_of(cur: Seq<char>, lines: Seq<Seq<char>>, id: Seq<char>) -> Seq<char>
    decreases lines.len(),
{
    if lines.len() == 0 {
        cur
    } else {
        final_name_of(name_after_line(cur, lines[0], id), lines.drop_first(), id)
    }
}

/// What one parsed line does to the entry list, entry by entry: every
/// present entry keeps its identifier and moves its file name by
/// `name_after_line`; at most one entry is appended, freshly declared
/// with an empty file name; and the identifiers stay distinct.
proof fn lemma_parse_line_entries(entries: Seq<TargetEntry>, line: Seq<char>)
    requires
        parse_line(entries, line) is Some,
        distinct_idents(targets_of(entries)),
    ensures
        ({
            let next = parse_line(entries, line)->0;
            &&& entries.len() <= next.len() <= entries.len() + 1
            &&& forall|j: int|
                0 <= j < entries.len() ==> next[j].target == entries[j].target
            &&& forall|j: int|
                0 <= j < entries.len() ==> next[j].file_name == name_after_line(
                    entries[j].file_name,
                    line,
                    entries[j].target,
                )
            &&& next.len() > entries.len() ==> declares(line, next[entries.len() as int].target)
                && next[entries.len() as int].file_name == Seq::<char>::empty()
            &&& distinct_idents(targets_of(next))
        }),
{
    let next = parse_line(entries, line)->0;
    if marker_declare().is_prefix_of(line) {
        let id = ident_of(line)->0;
        let j0 = index_of_target(entries, id);
        lemma_index_of_target_props(entries, id);
        assert(ident_of(line) == Some(id));
        if j0 < entries.len() {
            assert(entries[j0 as int].target == id);
            assert forall|j: int| 0 <= j < entries.len() implies next[j].file_name
                == name_after_line(entries[j].file_name, line, entries[j].target) by {
                if j != j0 {
                    assert(targets_of(entries)[j] == entries[j].target);
                    assert(targets_of(entries)[j0 as int] == entries[j0 as int].target);
                    if j < j0 {
                        assert(targets_of(entries)[j] != targets_of(entries)[j0 as int]);
                    } else {
                        assert(targets_of(entries)[j0 as int] != targets_of(entries)[j]);
                    }
                    assert(entries[j].target != id);
                }
            }
            assert(targets_of(next) =~= targets_of(entries));
        } else {
            assert forall|j: int| 0 <= j < entries.len() implies next[j].file_name
                == name_after_line(entries[j].file_name, line, entries[j].target) by {
                assert(entries[j].target != id);
            }
            assert(targets_of(next) =~= targets_of(entries).push(id));
            assert(distinct_idents(targets_of(next))) by {
                assert(forall|j: int|
                    0 <= j < targets_of(entries).len() ==> targets_of(entries)[j] != id);
            }
        }
    } else if marker_properties().is_prefix_of(line) {
        let id = ident_of(line)->0;
        let j0 = index_of_target(entries, id);
        lemma_index_of_target_props(entries, id);
        assert(ident_of(line) == Some(id));
        if j0 < entries.len() {
            assert(entries[j0 as int].target == id);
            assert forall|j: int| 0 <= j < entries.len() implies next[j].file_name
                == name_after_line(entries[j].file_name, line, entries[j].target) by {
                if j != j0 {
                    assert(targets_of(entries)[j] == entries[j].target);
                    assert(targets_of(entries)[j0 as int] == entries[j0 as int].target);
                    if j < j0 {
                        assert(targets_of(entries)[j] != targets_of(entries)[j0 as int]);
                    } else {
                        assert(targets_of(entries)[j0 as int] != targets_of(entries)[j]);
                    }
                    assert(entries[j].target != id);
                }
            }
            assert(targets_of(next) =~= targets_of(entries));
        } else {
            assert forall|j: int| 0 <= j < entries.len() implies next[j].file_name
                == name_after_line(entries[j].file_name, line, entries[j].target) by {
                assert(entries[j].target != id);
            }
        }
    }
}

/// The fold keeps each entry's file name in step with `final_name_of`: an
/// entry present from the start carries its name forward from its current
/// one, and an entry created along the way gets the same final name from
/// any starting value, since its declaration resets it.
proof fn lemma_parse_lines_file_names(entries: Seq<TargetEntry>, lines: Seq<Seq<char>>, k: int)
    requires
        parse_lines(entries, lines) is Some,
        distinct_idents(targets_of(entries)),
        0 <= k < parse_lines(entries, lines)->0.len(),
    ensures
        k < entries.len() ==> parse_lines(entries, lines)->0[k].target == entries[k].target,
        k < entries.len() ==> parse_lines(entries, lines)->0[k].file_name == final_name_of(
            entries[k].file_name,
            lines,
            entries[k].target,
        ),
        k >= entries.len() ==> forall|cur: Seq<char>|
            parse_lines(entries, lines)->0[k].file_name == final_name_of(
                cur,
                lines,
                parse_lines(entries, lines)->0[k].target,
            ),
    decreases lines.len(),
{
    if lines.len() > 0 {
        let line = lines[0];
        let next = parse_line(entries, line)->0;
        let rest = lines.drop_first();
        let result = parse_lines(entries, lines)->0;
        lemma_parse_line_entries(entries, line);
        lemma_parse_lines_file_names(next, rest, k);
        if k < entries.len() {
            assert(result[k].file_name == final_name_of(
                name_after_line(entries[k].file_name, line, entries[k].target),
                rest,
                entries[k].target,
            ));
        } else if k < next.len() {
            let id = next[k].target;
            assert(declares(line, id));
            assert(result[k].file_name == final_name_of(Seq::empty(), rest, id));
            assert forall|cur: Seq<char>| result[k].file_name == final_name_of(
                cur,
                lines,
                result[k].target,
            ) by {
                assert(final_name_of(cur, lines, id) == final_name_of(
                    name_after_line(cur, line, id),
                    rest,
                    id,
                ));
                assert(name_after_line(cur, line, id) =~= Seq::<char>::empty());
            }
        } else {
            assert forall|cur: Seq<char>| result[k].file_name == final_name_of(
                cur,
                lines,
                result[k].target,
            ) by {
                let id = result[k].target;
                assert(result[k].file_name == final_name_of(
                    name_after_line(cur, line, id),
                    rest,
                    id,
                ));
            }
        }
    }
}

/// The file-name half of the catalog: a successful load gives each target
/// the quoted text of the nearest properties line that names it — the
/// last one after its last declaration — and an empty name when no such
/// line matched. Properties lines naming an undeclared identifier and
/// lines matching neither marker leave every name alone.
pub proof fn lemma_catalog_file_names(text: Seq<char>, k: int)
    requires
        catalog_of(text) is Some,
        0 <= k < catalog_of(text)->0.len(),
    ensures
        catalog_of(text)->0[k].file_name == final_name_of(
            Seq::empty(),
            split_lines(text),
            catalog_of(text)->0[k].target,
        ),
{
    assert(targets_of(Seq::empty()) =~= Seq::<Seq<char>>::empty());
    lemma_parse_lines_file_names(Seq::empty(), split_lines(text), k);
}

/// `index_of_target` finds an entry exactly when the identifier occurs.
proof fn lemma_index_of_target_contains(entries: Seq<TargetEntry>, id: Seq<char>)
    ensures
        index_of_target(entries, id) < entries.len() <==> targets_of(entries).contains(id),
{
    lemma_index_of_target_props(entries, id);
    if index_of_target(entries, id) < entries.len() {
        assert(targets_of(entries)[index_of_target(entries, id) as int] == id);
    }
    if targets_of(entries).contains(id) {
        let w = choose|w: int| 0 <= w < targets_of(entries).len() && targets_of(entries)[w] == id;
        assert(entries[w].target == id);
    }
}

/// One step of the fold keeps the identifier list in declaration order and
/// free of duplicates.
proof fn lemma_parse_lines_order(entries: Seq<TargetEntry>, lines: Seq<Seq<char>>)
    requires
        parse_lines(entries, lines) is Some,
        distinct_idents(targets_of(entries)),
    ensures
        targets_of(parse_lines(entries, lines)->0) == declared_order(targets_of(entries), lines),
        distinct_idents(targets_of(parse_lines(entries, lines)->0)),
    decreases lines.len(),
{
    if lines.len() > 0 {
        let line = lines[0];
        let next = parse_line(entries, line)->0;
        lemma_index_of_target_props(entries, seq![]);
        if marker_declare().is_prefix_of(line) {
            let id = ident_of(line)->0;
            let j = index_of_target(entries, id);
            lemma_index_of_target_props(entries, id);
            lemma_index_of_target_contains(entries, id);
            if j < entries.len() {
                assert(targets_of(next) =~= targets_of(entries));
            } else {
                assert(targets_of(next) =~= targets_of(entries).push(id));
                assert(distinct_idents(targets_of(next))) by {
                    assert(forall|k: int|
                        0 <= k < targets_of(entries).len() ==> targets_of(entries)[k] != id);
                }
            }
        } else if marker_properties().is_prefix_of(line) {
            let id = ident_of(line)->0;
            let j = index_of_target(entries, id);
            lemma_index_of_target_props(entries, id);
            if j < entries.len() && quoted_of(line) is Some {
                assert(targets_of(next) =~= targets_of(entries));
            }
        }
        lemma_parse_lines_order(next, lines.drop_first());
    }
}

/// Declaration order: a successful catalog load lists exactly the declared
/// identifiers, first declaration first, and none of them twice.
pub proof fn lemma_catalog_declaration_order(text: Seq<char>)
    requires
        catalog_of(text) is Some,
    ensures
        targets_of(catalog_of(text)->0) == declared_order(Seq::empty(), split_lines(text)),
        distinct_idents(targets_of(catalog_of(text)->0)),
{
    assert(targets_of(Seq::empty()) =~= Seq::<Seq<char>>::empty());
    lemma_parse_lines_order(Seq::empty(), split_lines(text));
}

/// The first position of `c` in `s` at or after `from`, or the length of
/// `s` when `c` does not occur there.
fn find_char(s: &str, c: char, from: usize) -> (r: usize)
    requires
        from as nat <= s@.len(),
    ensures
        r as nat == find_from(s@, c, from as nat),
        from <= r,
        r as nat <= s@.len(),
{
    let n = s.unicode_len();
    let mut i = from;
    while i < n
        invariant
            from <= i <= n,
            n as nat == s@.len(),
            forall|j: int| from <= j < i ==> s@[j] != c,
        decreases n - i,
    {
        if s.get_char(i) == c {
            proof {
                lemma_find_from_at(s@, c, from as nat, i as nat);
            }
            return i;
        }
        i = i + 1;
    }
    proof {
        lemma_find_from_at(s@, c, from as nat, n as nat);
    }
    n
}

/// Whether `prefix` opens `s`.
fn str_starts_with(s: &str, prefix: &str) -> (r: bool)
    ensures
        r == prefix@.is_prefix_of(s@),
{
    let pn = prefix.unicode_len();
    let sn = s.unicode_len();
    if pn > sn {
        return false;
    }
    let mut i: usize = 0;
    while i < pn
        invariant
            0 <= i <= pn,
            pn as nat == prefix@.len(),
            sn as nat == s@.len(),
            pn <= sn,
            forall|j: int| 0 <= j < i ==> s@[j] == prefix@[j],
        decreases pn - i,
    {
        if s.get_char(i) != prefix.get_char(i) {
            assert(!prefix@.is_prefix_of(s@)) by {
                assert(s@.subrange(0, pn as int)[i as int] == s@[i as int]);
            }
            return false;
        }
        i = i + 1;
    }
    assert(prefix@ =~= s@.subrange(0, pn as int));
    true
}

/// The identifier on a marker line, owned, as `ident_of` gives it.
fn extract_ident(line: &str) -> (r: Option<String>)
    ensures
        r is Some <==> ident_of(line@) is Some,
        r is Some ==> r->0@ == ident_of(line@)->0,
{
    let n = line.unicode_len();
    let p = find_char(line, '(', 0);
    if p == n {
        return None;
    }
    let rest = line.substring_char(p + 1, n);
    let sp = find_char(rest, ' ', 0);
    let id = rest.substring_char(0, sp);
    Some(id.to_owned())
}

/// The first quoted text on a line, owned, as `quoted_of` gives it.
fn extract_quoted(line: &str) -> (r: Option<String>)
    ensures
        r is Some <==> quoted_of(line@) is Some,
        r is Some ==> r->0@ == quoted_of(line@)->0,
{
    let n = line.unicode_len();
    let p = find_char(line, '"', 0);
    if p == n {
        return None;
    }
    let rest = line.substring_char(p + 1, n);
    let q = find_char(rest, '"', 0);
    let name = rest.substring_char(0, q);
    Some(name.to_owned())
}

/// The index of the target named `id`, or `None` when no target is.
fn find_target(entries: &Vec<Project>, id: &String) -> (r: Option<usize>)
    ensures
        match r {
            Some(j) => j as nat == index_of_target(entries_view(entries@), id@) && j
                < entries.len(),
            None => index_of_target(entries_view(entries@), id@) == entries_view(
                entries@,
            ).len(),
        },
{
    let ghost ev = entries_view(entries@);
    let mut j: usize = 0;
    while j < entries.len()
        invariant
            0 <= j <= entries.len(),
            ev == entries_view(entries@),
            ev.len() == entries.len(),
            forall|k: int| 0 <= k < j ==> ev[k].target != id@,
        decreases entries.len() - j,
    {
        if entries[j].target == *id {
            proof {
                assert(ev[j as int].target == id@);
                lemma_index_of_target_at(ev, id@, j as nat);
            }
            return Some(j);
        }
        proof {
            assert(ev[j as int].target == entries@[j as int].target@);
        }
        j = j + 1;
    }
    proof {
        lemma_index_of_target_at(ev, id@, entries.len() as nat);
    }
    None
}

/// Record a declaration of `id` in the target list, as `declare_entry`
/// describes.
fn declare_target(entries: &mut Vec<Project>, id: String)
    ensures
        entries_view(final(entries)@) == declare_entry(entries_view(old(entries)@), id@),
{
    let ghost before = entries_view(entries@);
    match find_target(entries, &id) {
        Some(j) => {
            entries[j].target = id;
            entries[j].file_name = String::new();
            proof {
                assert(entries_view(entries@) =~= declare_entry(before, id@));
            }
        },
        None => {
            entries.push(Project { target: id, file_name: String::new() });
            proof {
                assert(entries_view(entries@) =~= declare_entry(before, id@));
            }
        },
    }
}

/// Record a properties line for `id` in the target list, as `assign_entry`
/// describes; `j` locates the matching entry.
fn assign_target(entries: &mut Vec<Project>, j: usize, id: &String, name: String)
    requires
        j < old(entries).len(),
        j as nat == index_of_target(entries_view(old(entries)@), id@),
    ensures
        entries_view(final(entries)@) == assign_entry(entries_view(old(entries)@), id@, name@),
{
    let ghost before = entries_view(entries@);
    proof {
        lemma_index_of_target_props(before, id@);
    }
    entries[j].file_name = name;
    proof {
        assert(entries_view(entries@) =~= assign_entry(before, id@, name@));
    }
}

/// Apply one line to the target list, as `parse_line` describes; `false`
/// reports a fatal line and leaves the list unchanged.
fn apply_line(entries: &mut Vec<Project>, line: &str) -> (ok: bool)
    ensures
        ok == (parse_line(entries_view(old(entries)@), line@) is Some),
        ok ==> entries_view(final(entries)@) == parse_line(
            entries_view(old(entries)@),
            line@,
        )->0,
        !ok ==> final(entries)@ == old(entries)@,
{
    if str_starts_with(line, "declare executable") {
        match extract_ident(line) {
            Some(id) => {
                declare_target(entries, id);
                true
            },
            None => false,
        }
    } else if str_starts_with(line, "set target properties") {
        match extract_ident(line) {
            Some(id) => {
                match find_target(entries, &id) {
                    Some(j) => {
                        match extract_quoted(line) {
                            Some(name) => {
                                assign_target(entries, j, &id, name);
                                true
                            },
                            None => false,
                        }
                    },
                    None => true,
                }
            },
            None => false,
        }
    } else {
        true
    }
}

/// Scan a build-description text once and produce the declared targets in
/// declaration order, each with the output file name from its last
/// matching properties line, or empty if none matched. Fails exactly when
/// some marker line lacks its expected delimiter.
pub fn parse_catalog(text: &str) -> (r: Result<Vec<Project>, ParseError>)
    ensures
        r is Ok <==> catalog_of(text@) is Some,
        r is Ok ==> entries_view(r->Ok_0@) == catalog_of(text@)->0,
{
    let mut entries: Vec<Project> = Vec::new();
    let mut rest: &str = text;
    proof {
        assert(entries_view(entries@) =~= Seq::<TargetEntry>::empty());
    }
    loop
        invariant
            catalog_of(text@) == parse_lines(entries_view(entries@), split_lines(rest@)),
        decreases rest@.len(),
    {
        let n = rest.unicode_len();
        if n == 0 {
            return Ok(entries);
        }
        let p = find_char(rest, '\n', 0);
        let line_end = if p > 0 && rest.get_char(p - 1) == '\r' {
            p - 1
        } else {
            p
        };
        let line = rest.substring_char(0, line_end);
        proof {
            if p as nat == rest@.len() {
                assert(line@ == strip_cr(rest@)) by {
                    assert(rest@.subrange(0, rest@.len() as int) =~= rest@);
                    if rest@.len() > 0 && rest@.last() == '\r' {
                        assert(rest@.subrange(0, rest@.len() - 1) =~= rest@.drop_last());
                    }
                }
            } else {
                let lraw = rest@.subrange(0, p as int);
                assert(line@ == strip_cr(lraw)) by {
                    if p > 0 && rest@[p - 1] == '\r' {
                        assert(lraw.len() > 0 && lraw.last() == '\r');
                        assert(rest@.subrange(0, p - 1) =~= lraw.drop_last());
                    } else {
                        if lraw.len() > 0 {
                            assert(lraw.last() == rest@[p - 1]);
                        }
                    }
                }
            }
        }
        let ghost ev_before = entries_view(entries@);
        let ghost lns = split_lines(rest@);
        proof {
            if p == n {
                assert(lns =~= seq![strip_cr(rest@)]);
            } else {
                assert(lns == seq![strip_cr(rest@.subrange(0, p as int))] + split_lines(
                    rest@.subrange(p + 1, rest@.len() as int),
                ));
            }
            assert(lns[0] == line@);
        }
        if !apply_line(&mut entries, line) {
            proof {
                assert(parse_lines(ev_before, lns) is None);
            }
            return Err(ParseError::MalformedLine);
        }
        proof {
            assert(parse_lines(ev_before, lns) == parse_lines(
                entries_view(entries@),
                lns.drop_first(),
            ));
        }
        if p == n {
            proof {
                assert(lns.drop_first().len() == 0);
                assert(parse_lines(entries_view(entries@), lns.drop_first()) == Some(
                    entries_view(entries@),
                ));
            }
            return Ok(entries);
        }
        let next = rest.substring_char(p + 1, n);
        proof {
            assert(lns.drop_first() =~= split_lines(next@));
        }
        rest = next;
    }
}

} // verus!
