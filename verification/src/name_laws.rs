//! What holds of file names and of the plans that are made of them.

use std::path::PathBuf;

use vstd::prelude::*;

use crate::downloads;
use crate::plan;
use crate::plan::{ConflictChoice, PlanModel, PlannedUpload, RunModel};
use crate::text;
use crate::transfer_laws;
use crate::web;

verus! {

// ---------------------------------------------------------------------------
// Plain names
// ---------------------------------------------------------------------------

/// The characters that a file name keeps: all but separators, what some file
/// system reserves, and control characters.
pub open spec fn keeps(c: char) -> bool {
    &&& ' ' <= c <= '~' || '\u{a0}' <= c
    &&& c != '/' && c != '\\' && c != ':' && c != '*' && c != '?'
    &&& c != '"' && c != '<' && c != '>' && c != '|'
}

/// A character is kept or replaced.
proof fn lemma_keeps(c: char)
    ensures
        downloads::plain(c) == (if keeps(c) {
            c
        } else {
            '_'
        }),
{
}

/// Whether the text can be a file name as it is.
pub open spec fn ordinary(name: Seq<char>) -> bool {
    &&& name.len() > 0
    &&& name[0] != '.'
    &&& forall|i: int| 0 <= i < name.len() ==> keeps(#[trigger] name[i])
}

/// A file name without reserved characters that does not begin with a dot is
/// kept exactly as it is.
pub proof fn law_ordinary_names_are_kept(raw: Seq<char>)
    requires
        ordinary(raw),
    ensures
        downloads::file_name(raw) == Some(raw),
        plan::usable(Some(raw)) == Some(raw),
{
    let all = raw.map_values(|c: char| downloads::plain(c));
    assert forall|i: int| 0 <= i < raw.len() implies all[i] == #[trigger] raw[i] by {
        assert(keeps(raw[i]));
        lemma_keeps(raw[i]);
    }
    assert(all =~= raw);
}

/// What is dropped of a text that is trimmed at its start.
proof fn lemma_dropped(s: Seq<char>, c: char)
    ensures
        text::trim_start(s, c).len() <= s.len(),
        text::trim_start(s, c) == s.skip(s.len() - text::trim_start(s, c).len()),
        forall|k: int|
            0 <= k < s.len() - text::trim_start(s, c).len() ==> #[trigger] s[k] == c,
        text::trim_start(s, c).len() > 0 ==> text::trim_start(s, c)[0] != c,
    decreases s.len(),
{
    if s.len() > 0 && s.first() == c {
        let t = s.drop_first();
        lemma_dropped(t, c);
        assert(text::trim_start(s, c) =~= s.skip(s.len() - text::trim_start(s, c).len()));
        assert forall|k: int| 0 <= k < s.len() - text::trim_start(s, c).len() implies #[trigger] s[k]
            == c by {
            if k > 0 {
                assert(t[k - 1] == s[k]);
            }
        }
    } else {
        assert(s.skip(0) =~= s);
    }
}

/// A file name is what was given, without the dots at its start, and with an
/// underscore for each reserved character; it is missing exactly where there is
/// nothing but dots.
pub proof fn law_file_name_follows_what_was_given(raw: Seq<char>)
    ensures
        match downloads::file_name(raw) {
            None => forall|i: int| 0 <= i < raw.len() ==> #[trigger] raw[i] == '.',
            Some(name) => {
                let dots = raw.len() - name.len();
                &&& 0 < name.len() <= raw.len()
                &&& forall|i: int| 0 <= i < dots ==> #[trigger] raw[i] == '.'
                &&& raw[dots] != '.'
                &&& forall|i: int|
                    0 <= i < name.len() ==> #[trigger] name[i] == (if keeps(raw[dots + i]) {
                        raw[dots + i]
                    } else {
                        '_'
                    })
            },
        },
{
    let all = raw.map_values(|c: char| downloads::plain(c));
    lemma_dropped(all, '.');
    let name = text::trim_start(all, '.');
    let dots = raw.len() - name.len();
    assert forall|i: int| 0 <= i < dots implies #[trigger] raw[i] == '.' by {
        assert(all[i] == downloads::plain(raw[i]));
    }
    if name.len() > 0 {
        assert(name[0] == all[dots]);
        assert(all[dots] == downloads::plain(raw[dots]));
        assert forall|i: int| 0 <= i < name.len() implies #[trigger] name[i] == (if keeps(
            raw[dots + i],
        ) {
            raw[dots + i]
        } else {
            '_'
        }) by {
            lemma_keeps(raw[dots + i]);
            assert(name[i] == all[dots + i]);
            assert(all[dots + i] == downloads::plain(raw[dots + i]));
        }
    }
}

/// A file name is an ordinary one, and is kept when it is made plain again.
pub proof fn law_file_name_is_stable(raw: Seq<char>)
    requires
        downloads::file_name(raw) is Some,
    ensures
        ordinary(downloads::file_name(raw)->0),
        downloads::file_name(downloads::file_name(raw)->0) == downloads::file_name(raw),
{
    law_file_name_follows_what_was_given(raw);
    let name = downloads::file_name(raw)->0;
    let dots = raw.len() - name.len();
    assert(name[0] != '.') by {
        assert(raw[dots + 0] != '.');
    }
    assert forall|i: int| 0 <= i < name.len() implies keeps(#[trigger] name[i]) by {}
    law_ordinary_names_are_kept(name);
}

// ---------------------------------------------------------------------------
// Numbered names
// ---------------------------------------------------------------------------

/// The last dot is the one that no dot stands after.
proof fn lemma_last_dot_at(s: Seq<char>, k: int)
    requires
        0 <= k < s.len(),
        k == 0 || s[k] == '.',
        forall|j: int| k < j < s.len() ==> s[j] != '.',
    ensures
        plan::last_dot(s) == k,
    decreases s.len(),
{
    if k < s.len() - 1 {
        let t = s.drop_last();
        assert(s[s.len() - 1] != '.');
        lemma_last_dot_at(t, k);
    } else if s.last() != '.' {
        assert(s.drop_last().len() == 0);
        reveal_with_fuel(plan::last_dot, 2);
    }
}

/// A number goes between the stem of a name and its extension, which begins at
/// the last dot.
pub proof fn law_number_goes_before_the_extension(stem: Seq<char>, ext: Seq<char>, n: nat)
    requires
        stem.len() > 0,
        !ext.contains('.'),
    ensures
        plan::numbered(stem + seq!['.'] + ext, n) == stem + seq![' ', '('] + text::decimal(n)
            + seq![')', '.'] + ext,
{
    reveal_strlit(" (");
    reveal_strlit(")");
    let name = stem + seq!['.'] + ext;
    assert forall|j: int| stem.len() < j < name.len() implies name[j] != '.' by {
        assert(name[j] == ext[j - stem.len() - 1]);
        assert(ext.contains(ext[j - stem.len() - 1]));
    }
    lemma_last_dot_at(name, stem.len() as int);
    assert(name.take(stem.len() as int) =~= stem);
    assert(name.skip(stem.len() as int) =~= seq!['.'] + ext);
    assert(" ("@ =~= seq![' ', '(']);
    assert(")"@ + (seq!['.'] + ext) =~= seq![')', '.'] + ext);
    assert(plan::numbered(name, n) =~= stem + seq![' ', '('] + text::decimal(n)
        + seq![')', '.'] + ext);
}

/// A number goes to the end of a name without an extension: one without a dot,
/// or with a dot at its start alone.
pub proof fn law_number_goes_to_the_end(name: Seq<char>, n: nat)
    requires
        forall|i: int| 1 <= i < name.len() ==> #[trigger] name[i] != '.',
    ensures
        plan::numbered(name, n) == name + seq![' ', '('] + text::decimal(n) + seq![')'],
{
    reveal_strlit(" (");
    reveal_strlit(")");
    if name.len() > 0 {
        lemma_last_dot_at(name, 0);
    }
    assert(name.take(name.len() as int) =~= name);
    assert(" ("@ =~= seq![' ', '(']);
    assert(")"@ =~= seq![')']);
    assert(plan::numbered(name, n) =~= name + seq![' ', '('] + text::decimal(n) + seq![')']);
}

/// A file whose name is taken gets the first number, from one on, with which
/// its name is free, where fewer than ten thousand less one names are taken.
pub proof fn law_first_free_number_is_taken(name: Seq<char>, existing: Seq<Seq<char>>, stamp: u128)
    requires
        existing.len() < 9_999,
    ensures
        exists|n: nat|
            {
                &&& 1 <= n < 10_000
                &&& plan::renamed(name, existing, stamp) == #[trigger] plan::numbered(name, n)
                &&& !existing.contains(plan::numbered(name, n))
                &&& forall|k: nat|
                    1 <= k < n ==> existing.contains(#[trigger] plan::numbered(name, k))
            },
{
    transfer_laws::law_new_name_is_free(name, existing, stamp);
    let n = transfer_laws::law_free_number_is_the_first(name, existing);
    assert(plan::renamed(name, existing, stamp) == plan::numbered(name, n));
}

// ---------------------------------------------------------------------------
// Plans
// ---------------------------------------------------------------------------

/// The names as those of files.
pub open spec fn as_files(names: Seq<Seq<char>>) -> Seq<Option<Seq<char>>> {
    names.map_values(|n: Seq<char>| Some(n))
}

/// Files with ordinary names of which none is taken and no two are the same are
/// all sent, each under exactly its own name, and nobody is asked.
pub proof fn law_free_files_go_under_their_own_names(
    names: Seq<Seq<char>>,
    existing: Seq<Seq<char>>,
    choices: Seq<ConflictChoice>,
    stamps: Seq<u128>,
)
    requires
        choices.len() == names.len(),
        stamps.len() == names.len(),
        forall|i: int| 0 <= i < names.len() ==> ordinary(#[trigger] names[i]),
        forall|i: int| 0 <= i < names.len() ==> !existing.contains(#[trigger] names[i]),
        forall|i: int, j: int|
            0 <= i < j < names.len() ==> #[trigger] names[i] != #[trigger] names[j],
    ensures
        plan::plan(as_files(names), existing, choices, stamps).planned == Seq::new(
            names.len(),
            |i: int| (i, names[i]),
        ),
        plan::plan(as_files(names), existing, choices, stamps).taken == existing + names,
        forall|i: int|
            0 <= i < names.len() ==> !#[trigger] plan::conflicts(
                as_files(names),
                existing,
                choices,
                stamps,
                i,
            ),
    decreases names.len(),
{
    let raws = as_files(names);
    let p = plan::plan(raws, existing, choices, stamps);
    if names.len() > 0 {
        let n = names.len() - 1;
        let (fewer, cs, ss) = (names.drop_last(), choices.drop_last(), stamps.drop_last());
        law_free_files_go_under_their_own_names(fewer, existing, cs, ss);
        assert(raws.drop_last() =~= as_files(fewer));
        law_ordinary_names_are_kept(names[n]);
        let taken = existing + fewer;
        assert(!taken.contains(names[n])) by {
            if taken.contains(names[n]) {
                let k = choose|k: int| 0 <= k < taken.len() && taken[k] == names[n];
                if k < existing.len() {
                    assert(existing[k] == names[n]);
                } else {
                    assert(names[k - existing.len()] == names[n]);
                }
            }
        }
        assert(p.taken =~= existing + names);
        assert(p.planned =~= Seq::new(names.len(), |i: int| (i, names[i])));
        assert forall|i: int| 0 <= i < names.len() implies !#[trigger] plan::conflicts(
            raws,
            existing,
            choices,
            stamps,
            i,
        ) by {
            if i < n {
                assert(raws.take(i) =~= as_files(fewer).take(i));
                assert(choices.take(i) =~= cs.take(i));
                assert(stamps.take(i) =~= ss.take(i));
                assert(as_files(fewer)[i] == raws[i]);
                assert(!plan::conflicts(as_files(fewer), existing, cs, ss, i));
            } else {
                assert(raws.take(i) =~= as_files(fewer));
                assert(choices.take(i) =~= cs);
                assert(stamps.take(i) =~= ss);
            }
        }
    } else {
        assert(p.taken =~= existing + names);
        assert(p.planned =~= Seq::new(names.len(), |i: int| (i, names[i])));
    }
}

/// One more file with an ordinary name conflicts exactly where its name is
/// among those that are taken by then.
pub proof fn law_conflict_is_a_name_that_is_taken(
    raws: Seq<Option<Seq<char>>>,
    name: Seq<char>,
    existing: Seq<Seq<char>>,
    choices: Seq<ConflictChoice>,
    stamps: Seq<u128>,
    choice: ConflictChoice,
    stamp: u128,
)
    requires
        ordinary(name),
        choices.len() == raws.len(),
        stamps.len() == raws.len(),
    ensures
        plan::conflicts(
            raws.push(Some(name)),
            existing,
            choices.push(choice),
            stamps.push(stamp),
            raws.len() as int,
        ) == plan::plan(raws, existing, choices, stamps).taken.contains(name),
{
    law_ordinary_names_are_kept(name);
    let n = raws.len() as int;
    assert(raws.push(Some(name)).take(n) =~= raws);
    assert(choices.push(choice).take(n) =~= choices);
    assert(stamps.push(stamp).take(n) =~= stamps);
}

/// A file whose name is taken goes as the user says: over the one that is there
/// under the same name, under another name that is free and taken from then on,
/// or not at all.
pub proof fn law_conflicts_go_as_the_user_says(p: PlanModel, file: int, name: Seq<char>, stamp: u128)
    requires
        ordinary(name),
        p.taken.contains(name),
        p.taken.len() < 9_999,
    ensures
        ({
            let over = plan::plan_one(p, file, Some(name), ConflictChoice::Overwrite, stamp);
            let aside = plan::plan_one(p, file, Some(name), ConflictChoice::Rename, stamp);
            let none = plan::plan_one(p, file, Some(name), ConflictChoice::Cancel, stamp);
            let fresh = aside.planned.last().1;
            &&& over.planned == p.planned.push((file, name))
            &&& over.taken == p.taken
            &&& aside.planned == p.planned.push((file, fresh))
            &&& aside.taken == p.taken.push(fresh)
            &&& fresh != name
            &&& !p.taken.contains(fresh)
            &&& none == p
        }),
{
    law_ordinary_names_are_kept(name);
    transfer_laws::law_new_name_is_free(name, p.taken, stamp);
}

/// A file whose name is free goes under it whatever the choice, and takes it; a
/// file without a name, or with dots for a name, is left out.
pub proof fn law_free_name_needs_no_choice(
    p: PlanModel,
    file: int,
    raw: Option<Seq<char>>,
    choice: ConflictChoice,
    stamp: u128,
)
    ensures
        raw matches Some(name) && ordinary(name) && !p.taken.contains(name) ==> plan::plan_one(
            p,
            file,
            raw,
            choice,
            stamp,
        ) == (PlanModel { taken: p.taken.push(raw->0), planned: p.planned.push((file, raw->0)) }),
        raw is None ==> plan::plan_one(p, file, raw, choice, stamp) == p,
        raw matches Some(name) && (forall|i: int| 0 <= i < name.len() ==> #[trigger] name[i] == '.')
            ==> plan::plan_one(p, file, raw, choice, stamp) == p,
{
    if raw is Some {
        let name = raw->0;
        if ordinary(name) {
            law_ordinary_names_are_kept(name);
        }
        law_file_name_follows_what_was_given(name);
    }
}

/// Every name that a plan sends a file under is an ordinary one, or one with a
/// number made from it.
pub proof fn law_planned_names_are_plain(
    raws: Seq<Option<Seq<char>>>,
    existing: Seq<Seq<char>>,
    choices: Seq<ConflictChoice>,
    stamps: Seq<u128>,
    j: int,
)
    requires
        choices.len() == raws.len(),
        stamps.len() == raws.len(),
        0 <= j < plan::plan(raws, existing, choices, stamps).planned.len(),
    ensures
        ({
            let (file, name) = plan::plan(raws, existing, choices, stamps).planned[j];
            &&& 0 <= file < raws.len()
            &&& raws[file] is Some
            &&& downloads::file_name(raws[file]->0) matches Some(base) && ordinary(base) && (name
                == base || exists|n: nat| name == #[trigger] plan::numbered(base, n))
        }),
{
    transfer_laws::law_files_are_planned_in_order(raws, existing, choices, stamps);
    let planned = plan::plan(raws, existing, choices, stamps).planned;
    let file = planned[j].0;
    assert(transfer_laws::goes(raws, existing, choices, stamps, file));
    law_file_name_is_stable(raws[file]->0);
    assert(planned[j].1 == transfer_laws::goes_as(raws, existing, choices, stamps, file));
}

/// The user is asked about the next file exactly where its name is taken, and
/// under that name.
pub proof fn law_question_names_the_file(m: RunModel, name: Seq<char>)
    requires
        0 <= m.at < m.raws.len(),
        m.raws[m.at] == Some(name),
        ordinary(name),
    ensures
        plan::question(m) == (if m.plan.taken.contains(name) {
            Some(name)
        } else {
            None
        }),
{
    law_ordinary_names_are_kept(name);
}

/// An answer settles the one file that was asked about, and an answer to no
/// question settles none.
pub proof fn law_answer_settles_one_file(m: RunModel, choice: ConflictChoice, stamp: u128)
    ensures
        plan::question(m) is Some ==> plan::answered(m, Some(choice), stamp) == (RunModel {
            raws: m.raws,
            at: m.at + 1,
            plan: plan::plan_one(m.plan, m.at, m.raws[m.at], choice, stamp),
        }),
        plan::question(m) is None ==> plan::answered(m, Some(choice), stamp) == m,
        plan::answered(m, None, stamp) == m,
{
}

/// The names of files are those that the operating system gives for their
/// paths, one for each and in their order.
pub proof fn law_files_are_called_as_the_system_says(
    raws: Seq<Option<String>>,
    files: Seq<PathBuf>,
    j: int,
)
    requires
        plan::names_files(raws, files),
    ensures
        raws.len() == files.len(),
        0 <= j < files.len() ==> call_ensures(web::path_file_name, (&files[j],), raws[j]),
{
    if 0 <= j < files.len() {
        assert(web::named(Some(files[j]), raws[j]));
    }
}

/// The uploads are the planned files, in their order: each with the path of its
/// file and the name that was planned for it.
pub proof fn law_uploads_are_the_planned_files(
    uploads: Seq<PlannedUpload>,
    files: Seq<PathBuf>,
    planned: Seq<(int, Seq<char>)>,
    j: int,
)
    requires
        plan::follows(uploads, files, planned),
    ensures
        uploads.len() == planned.len(),
        0 <= j < planned.len() ==> uploads[j].local_path == files[planned[j].0]
            && uploads[j].remote_name@ == planned[j].1,
{
}

} // verus!
