//! What holds of the tier across its calls and for every input.

use vstd::prelude::*;

use crate::knob::{absent_message, decimal_text, empty_message, parse_u16, NumberError};
use crate::reserved::{ascii_folded, is_reserved_segment};
use crate::service::{
    registered, registered_paths, refusal_code, refusal_message, INVALID_REQUEST, NO_ANCESTOR,
    UNAVAILABLE_REGISTRY, UNREACHABLE,
};
use crate::wire::{RegisteredPath, StatusCode, StoredProject};

verus! {

/// The paths of a registry set, in order.
pub open spec fn path_list(paths: Seq<RegisteredPath>) -> Seq<Seq<char>> {
    paths.map_values(|p: RegisteredPath| p.path@)
}

proof fn lemma_registered_paths_step(rows: Seq<StoredProject>)
    requires
        rows.len() > 0,
    ensures
        !is_reserved_segment(rows.last().path@) ==> registered_paths(rows)
            == registered_paths(rows.drop_last()).push(registered(rows.last())),
        is_reserved_segment(rows.last().path@) ==> registered_paths(rows) == registered_paths(
            rows.drop_last(),
        ),
{
    assert(rows.drop_last().push(rows.last()) =~= rows);
    crate::service::lemma_registered_paths_push(rows.drop_last(), rows.last());
}

proof fn lemma_registered_paths_empty(rows: Seq<StoredProject>)
    requires
        rows.len() == 0,
    ensures
        registered_paths(rows).len() == 0,
{
    reveal(Seq::filter);
}

/// The guard folds ASCII case: two paths that agree once ASCII case is folded
/// are either both the reserved segment or neither is.
pub proof fn the_guard_folds_ascii_case(p: Seq<char>, q: Seq<char>)
    requires
        p.len() == q.len(),
        forall|i: int| 0 <= i < p.len() ==> ascii_folded(#[trigger] p[i]) == ascii_folded(q[i]),
    ensures
        is_reserved_segment(p) <==> is_reserved_segment(q),
{
    if is_reserved_segment(p) {
        assert forall|i: int| 0 <= i < q.len() implies ascii_folded(#[trigger] q[i])
            == crate::reserved::reserved_root_chars()[i] as u32 by {
            assert(ascii_folded(p[i]) == ascii_folded(q[i]));
        }
    }
    if is_reserved_segment(q) {
        assert forall|i: int| 0 <= i < p.len() implies ascii_folded(#[trigger] p[i])
            == crate::reserved::reserved_root_chars()[i] as u32 by {
            assert(ascii_folded(p[i]) == ascii_folded(q[i]));
        }
    }
}

/// Only the bare segment is reserved: a path that extends it on either side,
/// such as `local/home` or `acme/local`, is not.
pub proof fn only_the_bare_segment_is_reserved(segment: Seq<char>, more: Seq<char>)
    requires
        is_reserved_segment(segment),
        more.len() > 0,
    ensures
        !is_reserved_segment(segment + more),
        !is_reserved_segment(more + segment),
{
}

/// No path in a registry set is the bare reserved segment.
pub proof fn no_reserved_path_survives(rows: Seq<StoredProject>, i: int)
    requires
        0 <= i < registered_paths(rows).len(),
    ensures
        !is_reserved_segment(registered_paths(rows)[i].path@),
    decreases rows.len(),
{
    if rows.len() == 0 {
        lemma_registered_paths_empty(rows);
    } else {
        lemma_registered_paths_step(rows);
        if i < registered_paths(rows.drop_last()).len() {
            no_reserved_path_survives(rows.drop_last(), i);
        }
    }
}

/// Every stored row not at the reserved segment reaches the set, whatever its
/// status, carrying its path, status and aliases.
pub proof fn every_other_row_survives(rows: Seq<StoredProject>, i: int)
    requires
        0 <= i < rows.len(),
        !is_reserved_segment(rows[i].path@),
    ensures
        registered_paths(rows).contains(registered(rows[i])),
        exists|k: int|
            0 <= k < registered_paths(rows).len() && (#[trigger] registered_paths(rows)[k]).path
                == rows[i].path && registered_paths(rows)[k].status == rows[i].status
                && registered_paths(rows)[k].aliases == rows[i].aliases,
    decreases rows.len(),
{
    lemma_registered_paths_step(rows);
    if i < rows.len() - 1 {
        every_other_row_survives(rows.drop_last(), i);
        let prev = registered_paths(rows.drop_last());
        let j = choose|j: int| 0 <= j < prev.len() && prev[j] == registered(rows[i]);
        if !is_reserved_segment(rows.last().path@) {
            assert(registered_paths(rows)[j] == prev[j]);
        }
        assert(registered_paths(rows)[j] == registered(rows[i]));
    } else {
        let all = registered_paths(rows);
        assert(all[all.len() - 1] == registered(rows[i]));
    }
}

/// Every entry of a registry set is a stored row that is not at the reserved
/// segment, carrying exactly that row's path, status and aliases.
pub proof fn every_entry_is_a_stored_row(rows: Seq<StoredProject>, i: int)
    requires
        0 <= i < registered_paths(rows).len(),
    ensures
        exists|j: int|
            0 <= j < rows.len() && !is_reserved_segment((#[trigger] rows[j]).path@)
                && registered_paths(rows)[i].path == rows[j].path && registered_paths(rows)[i].status
                == rows[j].status && registered_paths(rows)[i].aliases == rows[j].aliases,
    decreases rows.len(),
{
    if rows.len() == 0 {
        lemma_registered_paths_empty(rows);
    } else {
        lemma_registered_paths_step(rows);
        let prev = registered_paths(rows.drop_last());
        if i < prev.len() {
            every_entry_is_a_stored_row(rows.drop_last(), i);
            let j = choose|j: int|
                0 <= j < rows.drop_last().len() && !is_reserved_segment(
                    (#[trigger] rows.drop_last()[j]).path@,
                ) && prev[i].path == rows.drop_last()[j].path && prev[i].status
                    == rows.drop_last()[j].status && prev[i].aliases
                    == rows.drop_last()[j].aliases;
            assert(rows.drop_last()[j] == rows[j]);
            assert(registered_paths(rows)[i] == prev[i]);
        } else {
            let j = rows.len() - 1;
            assert(rows[j] == rows.last());
            assert(registered_paths(rows)[i] == registered(rows.last()));
        }
    }
}

proof fn lemma_folds_to_letter(c: char, lower: char, upper: char)
    requires
        97 <= (lower as u32) <= 122,
        upper as u32 == lower as u32 - 32,
    ensures
        ascii_folded(c) == lower as u32 <==> (c == lower || c == upper),
{
    if 65 <= (c as u32) <= 90 {
        assert((c as u32 + 32) as u32 == c as u32 + 32);
    }
}

/// The reserved segment is `local` and nothing else: a path is reserved
/// exactly when it has five characters and reads l, o, c, a, l with each
/// letter in either case.
pub proof fn reserved_means_local(p: Seq<char>)
    ensures
        is_reserved_segment(p) <==> (p.len() == 5 && (p[0] == 'l' || p[0] == 'L') && (p[1]
            == 'o' || p[1] == 'O') && (p[2] == 'c' || p[2] == 'C') && (p[3] == 'a' || p[3]
            == 'A') && (p[4] == 'l' || p[4] == 'L')),
{
    let root = crate::reserved::reserved_root_chars();
    if p.len() == 5 {
        lemma_folds_to_letter(p[0], 'l', 'L');
        lemma_folds_to_letter(p[1], 'o', 'O');
        lemma_folds_to_letter(p[2], 'c', 'C');
        lemma_folds_to_letter(p[3], 'a', 'A');
        lemma_folds_to_letter(p[4], 'l', 'L');
        assert(root[0] == 'l' && root[1] == 'o' && root[2] == 'c' && root[3] == 'a' && root[4]
            == 'l');
        if is_reserved_segment(p) {
            assert(ascii_folded(p[0]) == root[0] as u32);
            assert(ascii_folded(p[1]) == root[1] as u32);
            assert(ascii_folded(p[2]) == root[2] as u32);
            assert(ascii_folded(p[3]) == root[3] as u32);
            assert(ascii_folded(p[4]) == root[4] as u32);
        }
        if (p[0] == 'l' || p[0] == 'L') && (p[1] == 'o' || p[1] == 'O') && (p[2] == 'c' || p[2]
            == 'C') && (p[3] == 'a' || p[3] == 'A') && (p[4] == 'l' || p[4] == 'L') {
            assert forall|i: int| 0 <= i < p.len() implies ascii_folded(#[trigger] p[i])
                == root[i] as u32 by {
                if i == 0 {
                } else if i == 1 {
                } else if i == 2 {
                } else if i == 3 {
                } else {
                }
            }
        }
    }
}

/// Status never decides membership: two pages whose rows have the same paths,
/// one for one, give sets with the same paths in the same order, whatever the
/// rows' statuses.
pub proof fn status_does_not_decide_membership(rows: Seq<StoredProject>, others: Seq<StoredProject>)
    requires
        rows.len() == others.len(),
        forall|i: int| 0 <= i < rows.len() ==> (#[trigger] rows[i]).path@ == others[i].path@,
    ensures
        path_list(registered_paths(rows)) == path_list(registered_paths(others)),
    decreases rows.len(),
{
    if rows.len() == 0 {
        lemma_registered_paths_empty(rows);
        lemma_registered_paths_empty(others);
        assert(path_list(registered_paths(rows)) =~= path_list(registered_paths(others)));
    } else {
        assert forall|i: int| 0 <= i < rows.drop_last().len() implies (
        #[trigger] rows.drop_last()[i]).path@ == others.drop_last()[i].path@ by {
            assert(rows[i].path@ == others[i].path@);
        }
        status_does_not_decide_membership(rows.drop_last(), others.drop_last());
        lemma_registered_paths_step(rows);
        lemma_registered_paths_step(others);
        assert(rows.last().path@ == others.last().path@);
        let a = registered_paths(rows.drop_last());
        let b = registered_paths(others.drop_last());
        if !is_reserved_segment(rows.last().path@) {
            assert(path_list(a.push(registered(rows.last()))) =~= path_list(a).push(
                rows.last().path@,
            ));
            assert(path_list(b.push(registered(others.last()))) =~= path_list(b).push(
                others.last().path@,
            ));
        }
    }
}

/// Pages compose: the set two consecutive pages give is the set of the first
/// page followed by the set of the second, so a caller that loops over the
/// pages gets the set one page of all the rows would give.
pub proof fn pages_compose(first: Seq<StoredProject>, second: Seq<StoredProject>)
    ensures
        registered_paths(first + second) == registered_paths(first) + registered_paths(second),
    decreases second.len(),
{
    if second.len() == 0 {
        assert(first + second =~= first);
        lemma_registered_paths_empty(second);
        assert(registered_paths(first) + registered_paths(second) =~= registered_paths(first));
    } else {
        pages_compose(first, second.drop_last());
        assert((first + second).drop_last() =~= first + second.drop_last());
        assert((first + second).last() == second.last());
        lemma_registered_paths_step(first + second);
        lemma_registered_paths_step(second);
        if !is_reserved_segment(second.last().path@) {
            assert(registered_paths(first) + registered_paths(second.drop_last()).push(
                registered(second.last()),
            ) =~= (registered_paths(first) + registered_paths(second.drop_last())).push(
                registered(second.last()),
            ));
        }
    }
}

/// One condition carries one code across both tiers: a store `NOT_FOUND`,
/// `INVALID_ARGUMENT` or `UNAVAILABLE` reaches the caller with the same code,
/// and a store `DEADLINE_EXCEEDED` reaches it as `UNAVAILABLE`.
pub proof fn one_condition_one_code(code: StatusCode)
    ensures
        code == StatusCode::NotFound || code == StatusCode::InvalidArgument || code
            == StatusCode::Unavailable ==> refusal_code(code) == code,
        code == StatusCode::DeadlineExceeded ==> refusal_code(code) == StatusCode::Unavailable,
        code != StatusCode::NotFound && code != StatusCode::InvalidArgument && code
            != StatusCode::Unavailable && code != StatusCode::DeadlineExceeded ==> refusal_code(
            code,
        ) == StatusCode::Internal,
{
}

/// Each caller code carries its own sentence: no registered ancestor for
/// `NOT_FOUND`, an invalid request for `INVALID_ARGUMENT`, a retryable
/// unreachable store for `UNAVAILABLE`, and an unavailable registry for
/// `INTERNAL`.
pub proof fn each_code_carries_its_sentence(code: StatusCode)
    ensures
        refusal_code(code) == StatusCode::NotFound <==> refusal_message(code) == NO_ANCESTOR@,
        refusal_code(code) == StatusCode::InvalidArgument ==> refusal_message(code)
            == INVALID_REQUEST@,
        refusal_code(code) == StatusCode::Unavailable ==> refusal_message(code) == UNREACHABLE@,
        refusal_code(code) == StatusCode::Internal ==> refusal_message(code)
            == UNAVAILABLE_REGISTRY@,
{
    crate::service::lemma_sentences_differ();
}

/// The store's own words never reach the caller: whatever the store answered,
/// the caller's message is one of the four sentences this tier owns.
pub proof fn store_words_never_reach_the_caller(code: StatusCode)
    ensures
        refusal_message(code) == NO_ANCESTOR@ || refusal_message(code) == INVALID_REQUEST@
            || refusal_message(code) == UNREACHABLE@ || refusal_message(code)
            == UNAVAILABLE_REGISTRY@,
{
}

/// An empty knob and an absent one never share one message.
pub proof fn empty_and_absent_differ(key: Seq<char>)
    ensures
        empty_message(key) != absent_message(key),
{
    crate::knob::lemma_tails_differ_at_four();
    assert(empty_message(key)[key.len() + 4int] != absent_message(key)[key.len() + 4int]);
}

/// Every port number reads back from its decimal text: the text of `n`,
/// written most significant digit first, parses as `n`.
pub proof fn port_numbers_read_back(n: nat)
    requires
        n <= u16::MAX,
    ensures
        parse_u16(decimal_text(n)) == Ok::<u16, NumberError>(n as u16),
{
    crate::knob::lemma_decimal_text_scans(n);
    let text = decimal_text(n);
    assert(text[0] != '+' && text[0] != '-');
}

/// A number larger than any port, written in decimal, refuses as too large.
pub proof fn larger_numbers_refuse_as_overflow(n: nat)
    requires
        n > u16::MAX,
    ensures
        parse_u16(decimal_text(n)) == Err::<u16, NumberError>(NumberError::PosOverflow),
{
    crate::knob::lemma_decimal_text_scans(n);
    let text = decimal_text(n);
    assert(text[0] != '+' && text[0] != '-');
}

} // verus!
