//! What the vault does with names, passwords and secrets, stated over the
//! characters of the names and the records that it keeps.

use vstd::prelude::*;

use crate::aws::AwsSettings;
use crate::controller;
use crate::crypto;
use crate::numeral;
use crate::text;
use crate::text_laws;
use crate::vault;
use crate::vault::{SecretRecord, SecretSummary, VaultEntry, VaultError, VaultFile};
use crate::vault::{VaultPlaintext, VaultStore};

verus! {

/// Whether a segment of a path stands from `a` up to `b`.
pub open spec fn segment_at(s: Seq<char>, a: int, b: int) -> bool {
    &&& 0 <= a <= b <= s.len()
    &&& a == 0 || s[a - 1] == '/'
    &&& b == s.len() || s[b] == '/'
    &&& forall|i: int| a <= i < b ==> s[i] != '/'
}

proof fn segments_are_pieces(s: Seq<char>, a: int, b: int)
    requires
        segment_at(s, a, b),
    ensures
        text::split_on(s, '/').contains(s.subrange(a, b)),
{
    let piece = s.subrange(a, b);
    assert(!piece.contains('/')) by {
        if piece.contains('/') {
            let k = piece.index_of('/');
            assert(s[a + k] == '/');
        }
    }
    let head = s.subrange(0, b);
    if a == 0 {
        assert(head =~= piece);
        text_laws::separators_part_a_text(head, '/', Seq::empty());
        assert(text::split_on(head, '/')[0] == piece);
    } else {
        let front = s.subrange(0, a - 1);
        assert(head =~= front.push('/') + piece);
        text_laws::separators_part_a_text(front, '/', piece);
        text_laws::separators_part_a_text(piece, '/', Seq::empty());
        let n = text::split_on(front, '/').len() as int;
        assert(text::split_on(head, '/')[n] == piece);
    }
    if b < s.len() {
        let tail = s.subrange(b + 1, s.len() as int);
        assert(s =~= head.push('/') + tail);
        text_laws::separators_part_a_text(head, '/', tail);
        let k = text::split_on(head, '/').index_of(piece);
        assert(text::split_on(s, '/')[k] == piece);
    } else {
        assert(head =~= s);
    }
}

proof fn pieces_are_segments(s: Seq<char>, k: int) -> (r: (int, int))
    requires
        0 <= k < text::split_on(s, '/').len(),
    ensures
        segment_at(s, r.0, r.1),
        text::split_on(s, '/')[k] == s.subrange(r.0, r.1),
    decreases s.len(),
{
    if !s.contains('/') {
        text_laws::separators_part_a_text(s, '/', Seq::empty());
        assert(s.subrange(0, s.len() as int) =~= s);
        assert forall|i: int| 0 <= i < s.len() implies s[i] != '/' by {
            assert(s.contains(s[i]));
        }
        (0, s.len() as int)
    } else {
        let at = s.index_of_first('/')->Some_0;
        s.index_of_first_ensures('/');
        let front = s.subrange(0, at);
        let tail = s.subrange(at + 1, s.len() as int);
        assert(s =~= front.push('/') + tail);
        text_laws::separators_part_a_text(front, '/', tail);
        assert(!front.contains('/')) by {
            if front.contains('/') {
                let i = front.index_of('/');
                assert(s[i] == '/');
            }
        }
        text_laws::separators_part_a_text(front, '/', Seq::empty());
        if k == 0 {
            assert(text::split_on(s, '/')[0] == front);
            (0, at)
        } else {
            assert(text::split_on(s, '/')[k] == text::split_on(tail, '/')[k - 1]);
            let (a, b) = pieces_are_segments(tail, k - 1);
            assert(tail.subrange(a, b) =~= s.subrange(at + 1 + a, at + 1 + b));
            assert forall|i: int| at + 1 + a <= i < at + 1 + b implies s[i] != '/' by {
                assert(tail[i - at - 1] == s[i]);
            }
            if a > 0 {
                assert(tail[a - 1] == s[at + a]);
            }
            if b < tail.len() {
                assert(tail[b] == s[at + 1 + b]);
            }
            (at + 1 + a, at + 1 + b)
        }
    }
}

/// Whether a segment may stand in a name.
pub open spec fn may_stand(segment: Seq<char>) -> bool {
    &&& segment.len() > 0
    &&& segment != "."@
    &&& segment != ".."@
    &&& segment != "__proto__"@
    &&& segment != "prototype"@
    &&& segment != "constructor"@
}

proof fn all_may_stand(pieces: Seq<Seq<char>>)
    ensures
        vault::segments_error(pieces) is None <==> forall|k: int|
            0 <= k < pieces.len() ==> may_stand(#[trigger] pieces[k]),
    decreases pieces.len(),
{
    if pieces.len() > 0 {
        let rest = pieces.drop_last();
        all_may_stand(rest);
        if vault::segments_error(pieces) is None {
            assert forall|k: int| 0 <= k < pieces.len() implies may_stand(#[trigger] pieces[k]) by {
                if k < rest.len() {
                    assert(rest[k] == pieces[k]);
                }
            }
        }
        if forall|k: int| 0 <= k < pieces.len() ==> may_stand(#[trigger] pieces[k]) {
            assert forall|k: int| 0 <= k < rest.len() implies may_stand(#[trigger] rest[k]) by {
                assert(rest[k] == pieces[k]);
            }
            assert(may_stand(pieces[pieces.len() - 1]));
        }
    }
}

/// The name that is kept has the length of the trimmed name, a slash where that
/// has a backslash, and its character everywhere else. In particular a name
/// without a backslash and without white space around it is kept as it is.
pub proof fn names_are_kept_as_they_are(name: Seq<char>, kept: Seq<char>)
    requires
        vault::normalized_name(name) == Ok::<Seq<char>, Seq<char>>(kept),
    ensures
        kept.len() == text::trimmed(name).len(),
        forall|i: int|
            0 <= i < kept.len() && text::trimmed(name)[i] == '\\' ==> (#[trigger] kept[i]) == '/',
        forall|i: int|
            0 <= i < kept.len() && text::trimmed(name)[i] != '\\' ==> (#[trigger] kept[i])
                == text::trimmed(name)[i],
        !text::trimmed(name).contains('\\') ==> kept == text::trimmed(name),
        !name.contains('\\') && (name.len() == 0 || !text::is_whitespace(name[0])
            && !text::is_whitespace(name.last())) ==> kept == name,
{
    let trimmed = text::trimmed(name);
    if !trimmed.contains('\\') {
        assert forall|i: int| 0 <= i < kept.len() implies kept[i] == trimmed[i] by {
            assert(trimmed.contains(trimmed[i]));
        }
        assert(kept =~= trimmed);
    }
    text_laws::trimming_drops_white_space_alone(name);
}

/// A name is taken exactly where, with slashes for backslashes, it has one to
/// 256 characters, none of them a control character, and every segment between
/// its slashes may stand.
pub proof fn names_are_taken_where_they_may_stand(name: Seq<char>, plain: Seq<char>)
    requires
        plain.len() == text::trimmed(name).len(),
        forall|i: int|
            0 <= i < plain.len() ==> (#[trigger] plain[i]) == if text::trimmed(name)[i] == '\\' {
                '/'
            } else {
                text::trimmed(name)[i]
            },
    ensures
        vault::normalized_name(name) is Ok <==> {
            &&& 1 <= plain.len() <= 256
            &&& forall|i: int|
                0 <= i < plain.len() ==> !((#[trigger] plain[i]) as u32 <= 31 || 127
                    <= plain[i] as u32 <= 159)
            &&& forall|a: int, b: int| #[trigger]
                segment_at(plain, a, b) ==> may_stand(plain.subrange(a, b))
        },
        vault::normalized_name(name) matches Ok(kept) ==> kept == plain,
        plain.len() == 0 || plain.len() > 256 ==> vault::normalized_name(name) == Err::<
            Seq<char>,
            Seq<char>,
        >("Secret name is invalid"@),
{
    assert(vault::plain_name(name) =~= plain);
    text_laws::control_characters_are_found(plain);
    let pieces = text::split_on(plain, '/');
    all_may_stand(pieces);
    if vault::segments_error(pieces) is None {
        assert forall|a: int, b: int| #[trigger] segment_at(plain, a, b) implies may_stand(
            plain.subrange(a, b),
        ) by {
            segments_are_pieces(plain, a, b);
            let k = pieces.index_of(plain.subrange(a, b));
            assert(may_stand(pieces[k]));
        }
    }
    if forall|a: int, b: int| #[trigger]
        segment_at(plain, a, b) ==> may_stand(plain.subrange(a, b)) {
        assert forall|k: int| 0 <= k < pieces.len() implies may_stand(#[trigger] pieces[k]) by {
            let (a, b) = pieces_are_segments(plain, k);
            assert(segment_at(plain, a, b));
        }
    }
}

/// A group is kept without the white space around it; an empty one is none, and
/// one that is too long or has control characters is refused.
pub proof fn groups_are_kept_trimmed(group: Seq<char>)
    ensures
        ({
            let trimmed = text::trimmed(group);
            let bad = trimmed.len() > 128 || exists|i: int|
                0 <= i < trimmed.len() && ((#[trigger] trimmed[i]) as u32 <= 31 || 127
                    <= trimmed[i] as u32 <= 159);
            &&& trimmed.len() == 0 ==> vault::normalized_group(group) == Ok::<
                Option<Seq<char>>,
                Seq<char>,
            >(None)
            &&& trimmed.len() > 0 && !bad ==> vault::normalized_group(group) == Ok::<
                Option<Seq<char>>,
                Seq<char>,
            >(Some(trimmed))
            &&& trimmed.len() > 0 && bad ==> vault::normalized_group(group) == Err::<
                Option<Seq<char>>,
                Seq<char>,
            >("Secret group is invalid"@)
        }),
{
    text_laws::control_characters_are_found(text::trimmed(group));
}

/// The records of a store.
pub open spec fn records(store: VaultStore) -> Seq<SecretRecord> {
    store.data->Some_0.secrets@
}

/// Whether a store keeps an entry under a name.
pub open spec fn keeps(store: VaultStore, name: Seq<char>, entry: VaultEntry) -> bool {
    exists|i: int|
        0 <= i < records(store).len() && (#[trigger] records(store)[i]).name@ == name
            && records(store)[i].entry == entry
}

/// Whether a store keeps something under a name.
pub open spec fn has_name(store: VaultStore, name: Seq<char>) -> bool {
    exists|i: int| 0 <= i < records(store).len() && (#[trigger] records(store)[i]).name@ == name
}

/// The map of the secrets says what the records say.
proof fn map_of_records(store: VaultStore, name: Seq<char>)
    requires
        store.wf(),
        store.data is Some,
    ensures
        has_name(store, name) <==> vault::secrets(store).dom().contains(name),
        forall|entry: VaultEntry| #[trigger]
            keeps(store, name, entry) <==> vault::secrets(store).contains_pair(name, entry),
        has_name(store, name) <==> keeps(store, name, vault::secrets(store)[name]),
{
    let all = records(store);
    vault::entries_of_sorted(all);
    assert forall|entry: VaultEntry| #[trigger] keeps(store, name, entry) implies vault::secrets(
        store,
    ).contains_pair(name, entry) by {
        let i = choose|i: int|
            0 <= i < all.len() && (#[trigger] all[i]).name@ == name && all[i].entry == entry;
        assert(vault::entries(all).contains_pair(all[i].name@, all[i].entry));
    }
    assert forall|entry: VaultEntry| vault::secrets(store).contains_pair(
        name,
        entry,
    ) implies #[trigger] keeps(store, name, entry) by {
        assert(vault::entries(all).dom().contains(name));
        let i = choose|i: int| 0 <= i < all.len() && (#[trigger] all[i]).name@ == name;
        assert(vault::entries(all).contains_pair(all[i].name@, all[i].entry));
    }
    if has_name(store, name) {
        let i = choose|i: int| 0 <= i < all.len() && (#[trigger] all[i]).name@ == name;
        assert(vault::entries(all).contains_pair(all[i].name@, all[i].entry));
    }
    if vault::secrets(store).dom().contains(name) {
        let i = choose|i: int| 0 <= i < all.len() && (#[trigger] all[i]).name@ == name;
        assert(all[i].name@ == name);
    }
}

/// A secret is revealed under the name it is kept under: its own entry, and no
/// other; nothing is revealed under a name that nothing is kept under.
pub proof fn secrets_are_revealed_under_their_names(
    store: VaultStore,
    name: Seq<char>,
    kept: Seq<char>,
)
    requires
        store.wf(),
        vault::normalized_name(name) == Ok::<Seq<char>, Seq<char>>(kept),
    ensures
        store.data is Some ==> {
            &&& forall|i: int|
                0 <= i < records(store).len() && (#[trigger] records(store)[i]).name@ == kept
                    ==> vault::revealed(store, name) == Ok::<VaultEntry, Seq<char>>(
                    records(store)[i].entry,
                )
            &&& !has_name(store, kept) ==> vault::revealed(store, name) == Err::<
                VaultEntry,
                Seq<char>,
            >("Secret not found"@)
        },
        store.data is None ==> vault::revealed(store, name) == Err::<VaultEntry, Seq<char>>(
            "Vault is locked"@,
        ),
{
    if store.data is Some {
        map_of_records(store, kept);
        assert forall|i: int|
            0 <= i < records(store).len() && (#[trigger] records(store)[i]).name@
                == kept implies vault::revealed(store, name) == Ok::<VaultEntry, Seq<char>>(
            records(store)[i].entry,
        ) by {
            assert(keeps(store, kept, records(store)[i].entry));
        }
    }
}

/// A secret that is saved is kept under its name with its value, its group and
/// the time; one that was there keeps the time of its creation, and its group
/// where none is chosen. Every other secret, the AWS settings and the key stay
/// as they were.
pub proof fn saving_keeps_the_secret<
    E: Fn(&VaultPlaintext) -> Result<Vec<u8>, String>,
    W: Fn(&VaultFile) -> Result<(), VaultError>,
>(
    before: VaultStore,
    name: Seq<char>,
    kept: Seq<char>,
    value: Seq<char>,
    group: Option<&str>,
    now: Seq<char>,
    nonce: Result<Vec<u8>, VaultError>,
    encode: E,
    write: W,
    after: VaultStore,
    r: Result<(), VaultError>,
)
    requires
        before.wf(),
        after.wf(),
        before.data is Some,
        vault::normalized_name(name) == Ok::<Seq<char>, Seq<char>>(kept),
        group is Some ==> text::trimmed(group->Some_0@).len() <= 128 && !text::has_control(
            text::trimmed(group->Some_0@),
        ),
        vault::save_secret_outcome(
            before,
            name,
            value,
            group,
            now,
            nonce,
            encode,
            write,
            after,
            r,
        ),
    ensures
        after.data is Some,
        exists|i: int|
            {
                &&& 0 <= i < records(after).len()
                &&& (#[trigger] records(after)[i]).name@ == kept
                &&& records(after)[i].entry.value@ == value
                &&& records(after)[i].entry.updated_at@ == now
                &&& !has_name(before, kept) ==> records(after)[i].entry.created_at@ == now
                &&& group matches Some(chosen) ==> if text::trimmed(chosen@).len() == 0 {
                    records(after)[i].entry.group is None
                } else {
                    records(after)[i].entry.group is Some
                        && records(after)[i].entry.group->Some_0@ == text::trimmed(chosen@)
                }
                &&& group is None && !has_name(before, kept) ==> records(after)[i].entry.group
                    is None
                &&& forall|j: int|
                    0 <= j < records(before).len() && (#[trigger] records(before)[j]).name@ == kept
                        ==> {
                        &&& records(after)[i].entry.created_at@
                            == records(before)[j].entry.created_at@
                        &&& group is None ==> (records(after)[i].entry.group is Some
                            <==> records(before)[j].entry.group is Some) && (
                        records(before)[j].entry.group is Some
                            ==> records(after)[i].entry.group->Some_0@
                            == records(before)[j].entry.group->Some_0@)
                    }
            },
        forall|other: Seq<char>, entry: VaultEntry|
            other != kept ==> (#[trigger] keeps(after, other, entry) <==> keeps(
                before,
                other,
                entry,
            )),
        after.data->Some_0.aws == before.data->Some_0.aws,
        before.data->Some_0.revision < u64::MAX ==> after.data->Some_0.revision
            == before.data->Some_0.revision + 1,
        after.key == before.key,
        after.salt == before.salt,
        after.path == before.path,
        after.iterations == before.iterations,
{
    map_of_records(before, kept);
    map_of_records(after, kept);
    let chosen = vault::chosen_group(before, kept, group)->Ok_0;
    let entry = choose|entry: VaultEntry|
        vault::secrets(after) == #[trigger] vault::secrets(before).insert(kept, entry)
            && vault::is_written(entry, vault::secrets(before), kept, value, chosen, now);
    assert(vault::secrets(after).contains_pair(kept, entry));
    assert(keeps(after, kept, entry));
    let i = choose|i: int|
        0 <= i < records(after).len() && (#[trigger] records(after)[i]).name@ == kept
            && records(after)[i].entry == entry;
    assert forall|j: int|
        0 <= j < records(before).len() && (#[trigger] records(before)[j]).name@
            == kept implies vault::secrets(before)[kept] == records(before)[j].entry by {
        assert(keeps(before, kept, records(before)[j].entry));
    }
    assert(records(after)[i].name@ == kept);
    assert forall|other: Seq<char>, entry: VaultEntry| other != kept implies (#[trigger] keeps(
        after,
        other,
        entry,
    ) <==> keeps(before, other, entry)) by {
        map_of_records(before, other);
        map_of_records(after, other);
    }
}

/// A secret that is deleted is kept no longer, and everything else as it was;
/// one that is not there cannot be deleted.
pub proof fn deleting_removes_the_secret<
    E: Fn(&VaultPlaintext) -> Result<Vec<u8>, String>,
    W: Fn(&VaultFile) -> Result<(), VaultError>,
>(
    before: VaultStore,
    name: Seq<char>,
    kept: Seq<char>,
    nonce: Result<Vec<u8>, VaultError>,
    encode: E,
    write: W,
    after: VaultStore,
    r: Result<(), VaultError>,
)
    requires
        before.wf(),
        after.wf(),
        before.data is Some,
        vault::normalized_name(name) == Ok::<Seq<char>, Seq<char>>(kept),
        vault::delete_outcome(before, name, nonce, encode, write, after, r),
    ensures
        !has_name(before, kept) ==> r is Err && r->Err_0.0@ == "Secret not found"@ && after
            == before,
        has_name(before, kept) ==> {
            &&& after.data is Some
            &&& !has_name(after, kept)
            &&& forall|other: Seq<char>, entry: VaultEntry|
                other != kept ==> (#[trigger] keeps(after, other, entry) <==> keeps(
                    before,
                    other,
                    entry,
                ))
            &&& after.data->Some_0.aws == before.data->Some_0.aws
            &&& after.key == before.key
            &&& after.salt == before.salt
            &&& after.path == before.path
            &&& after.iterations == before.iterations
        },
{
    map_of_records(before, kept);
    if has_name(before, kept) {
        map_of_records(after, kept);
        assert forall|other: Seq<char>, entry: VaultEntry| other != kept implies (#[trigger] keeps(
            after,
            other,
            entry,
        ) <==> keeps(before, other, entry)) by {
            map_of_records(before, other);
            map_of_records(after, other);
        }
    }
}

/// Renaming moves a secret to another name with its value, its group and the
/// time of its creation; it takes no name that something else is kept under.
pub proof fn renaming_moves_the_record<
    E: Fn(&VaultPlaintext) -> Result<Vec<u8>, String>,
    W: Fn(&VaultFile) -> Result<(), VaultError>,
>(
    before: VaultStore,
    old_name: Seq<char>,
    from: Seq<char>,
    new_name: Seq<char>,
    to: Seq<char>,
    now: String,
    nonce: Result<Vec<u8>, VaultError>,
    encode: E,
    write: W,
    after: VaultStore,
    r: Result<(), VaultError>,
    j: int,
)
    requires
        before.wf(),
        after.wf(),
        before.data is Some,
        vault::normalized_name(old_name) == Ok::<Seq<char>, Seq<char>>(from),
        vault::normalized_name(new_name) == Ok::<Seq<char>, Seq<char>>(to),
        vault::rename_outcome(before, old_name, new_name, now, nonce, encode, write, after, r),
    ensures
        from != to && has_name(before, to) ==> r is Err && r->Err_0.0@
            == "A secret with that name already exists"@ && after == before,
        !(from != to && has_name(before, to)) && !has_name(before, from) ==> r is Err
            && r->Err_0.0@ == "Secret not found"@ && after == before,
        !(from != to && has_name(before, to)) && 0 <= j < records(before).len() && records(
            before,
        )[j].name@ == from ==> {
            &&& after.data is Some
            &&& exists|i: int|
                {
                    &&& 0 <= i < records(after).len()
                    &&& (#[trigger] records(after)[i]).name@ == to
                    &&& records(after)[i].entry.value == records(before)[j].entry.value
                    &&& records(after)[i].entry.group == records(before)[j].entry.group
                    &&& records(after)[i].entry.created_at == records(before)[j].entry.created_at
                    &&& records(after)[i].entry.updated_at == now
                }
            &&& from != to ==> !has_name(after, from)
            &&& forall|other: Seq<char>, entry: VaultEntry|
                other != from && other != to ==> (#[trigger] keeps(after, other, entry) <==> keeps(
                    before,
                    other,
                    entry,
                ))
            &&& after.data->Some_0.aws == before.data->Some_0.aws
            &&& after.key == before.key
            &&& after.salt == before.salt
            &&& after.path == before.path
            &&& after.iterations == before.iterations
        },
{
    map_of_records(before, from);
    map_of_records(before, to);
    if !(from != to && has_name(before, to)) && 0 <= j < records(before).len() && records(
        before,
    )[j].name@ == from {
        assert(has_name(before, from));
        assert(keeps(before, from, records(before)[j].entry));
        map_of_records(after, from);
        map_of_records(after, to);
        let moved = VaultEntry { updated_at: now, ..vault::secrets(before)[from] };
        assert(vault::secrets(after).contains_pair(to, moved));
        assert(keeps(after, to, moved));
        assert forall|other: Seq<char>, entry: VaultEntry|
            other != from && other != to implies (#[trigger] keeps(after, other, entry) <==> keeps(
            before,
            other,
            entry,
        )) by {
            map_of_records(before, other);
            map_of_records(after, other);
        }
    }
}

/// A list shows every secret by its name, its group and its times, in the order
/// of the names, and no value.
pub proof fn lists_show_every_secret(store: VaultStore, list: Seq<SecretSummary>)
    requires
        store.wf(),
        store.data is Some,
        vault::is_listing(list, records(store)),
    ensures
        list.len() == records(store).len(),
        forall|i: int|
            0 <= i < list.len() ==> {
                &&& (#[trigger] list[i]).name == records(store)[i].name
                &&& list[i].group == records(store)[i].entry.group
                &&& list[i].created_at == records(store)[i].entry.created_at
                &&& list[i].updated_at == records(store)[i].entry.updated_at
            },
        forall|i: int, j: int|
            0 <= i < j < list.len() ==> exists|k: int| #[trigger]
                text_laws::smaller_at((#[trigger] list[i]).name@, (#[trigger] list[j]).name@, k),
{
    assert forall|i: int, j: int| 0 <= i < j < list.len() implies exists|k: int| #[trigger]
        text_laws::smaller_at((#[trigger] list[i]).name@, (#[trigger] list[j]).name@, k) by {
        assert(list[i].name == records(store)[i].name);
        assert(list[j].name == records(store)[j].name);
        assert(text::precedes(records(store)[i].name@, records(store)[j].name@));
        text_laws::texts_are_ordered_by_their_characters(
            records(store)[i].name@,
            records(store)[j].name@,
        );
    }
}

/// What saving hands to `write`: a file in the one format, which opens with the
/// key of the store to what was encoded of the contents of the store.
pub proof fn what_is_written_opens_to_the_contents<
    E: Fn(&VaultPlaintext) -> Result<Vec<u8>, String>,
    W: Fn(&VaultFile) -> Result<(), VaultError>,
>(
    data: VaultPlaintext,
    key: Seq<u8>,
    salt: Seq<u8>,
    iterations: u32,
    nonce: Result<Vec<u8>, VaultError>,
    encode: E,
    write: W,
    r: Result<(), VaultError>,
)
    requires
        vault::save_outcome(data, key, salt, iterations, nonce, encode, write, r),
        r is Ok,
    ensures
        nonce is Ok,
        exists|file: VaultFile, bytes: Vec<u8>|
            #![trigger call_ensures(write, (&file,), r), call_ensures(
                encode,
                (&data,),
                Ok::<Vec<u8>, String>(bytes),
            )]
            {
                &&& call_ensures(encode, (&data,), Ok::<Vec<u8>, String>(bytes))
                &&& call_ensures(write, (&file,), r)
                &&& file.version == 1
                &&& file.kdf.name@ == "PBKDF2"@
                &&& file.kdf.hash@ == "SHA-256"@
                &&& file.kdf.iterations == iterations
                &&& crypto::base64_decoded(file.kdf.salt@) == Some(salt)
                &&& file.cipher.name@ == "AES-GCM"@
                &&& crypto::base64_decoded(file.cipher.iv@) == Some(nonce->Ok_0@)
                &&& crypto::base64_decoded(file.ciphertext@) is Some
                &&& crypto::gcm_opened(
                    key,
                    nonce->Ok_0@,
                    crypto::base64_decoded(file.ciphertext@)->Some_0,
                    vault::associated(file),
                ) == Some(bytes@)
            },
{
    let encoded = choose|encoded: Result<Vec<u8>, String>|
        #![trigger call_ensures(encode, (&data,), encoded)]
        call_ensures(encode, (&data,), encoded) && match encoded {
            Err(message) => r is Err && r->Err_0.0@ == "Could not encode vault: "@ + message@,
            Ok(bytes) => if vault::exceeds(bytes@, iterations, salt) {
                r is Err && r->Err_0.0@ == "Could not encrypt vault"@
            } else {
                exists|file: VaultFile|
                    #![trigger call_ensures(write, (&file,), r)]
                    vault::seals(file, key, salt, iterations, nonce->Ok_0@, bytes@)
                        && call_ensures(write, (&file,), r)
            },
        };
    let bytes = encoded->Ok_0;
    assert(encoded == Ok::<Vec<u8>, String>(bytes));
}

/// A change that is saved is written as it stands in the store.
pub proof fn saved_changes_are_written<
    E: Fn(&VaultPlaintext) -> Result<Vec<u8>, String>,
    W: Fn(&VaultFile) -> Result<(), VaultError>,
>(
    before: VaultStore,
    nonce: Result<Vec<u8>, VaultError>,
    encode: E,
    write: W,
    after: VaultStore,
    r: Result<(), VaultError>,
)
    requires
        vault::saved(before, nonce, encode, write, after, r),
        r is Ok,
    ensures
        exists|file: VaultFile, bytes: Vec<u8>|
            #![trigger call_ensures(write, (&file,), r), call_ensures(
                encode,
                (&after.data->Some_0,),
                Ok::<Vec<u8>, String>(bytes),
            )]
            {
                &&& call_ensures(encode, (&after.data->Some_0,), Ok::<Vec<u8>, String>(bytes))
                &&& call_ensures(write, (&file,), r)
                &&& file.kdf.iterations == before.iterations
                &&& crypto::base64_decoded(file.kdf.salt@) == Some(before.salt->Some_0@)
                &&& crypto::gcm_opened(
                    before.key->Some_0@,
                    crypto::base64_decoded(file.cipher.iv@)->Some_0,
                    crypto::base64_decoded(file.ciphertext@)->Some_0,
                    vault::associated(file),
                ) == Some(bytes@)
            },
{
    what_is_written_opens_to_the_contents(
        after.data->Some_0,
        after.key->Some_0@,
        after.salt->Some_0@,
        after.iterations,
        nonce,
        encode,
        write,
        r,
    );
}

/// A vault is made only under a password of at least seven characters and where
/// there is none. It is then open and empty, under the key that PBKDF2 derives
/// from the password in 600,000 rounds.
pub proof fn new_vaults_are_empty<
    E: Fn(&VaultPlaintext) -> Result<Vec<u8>, String>,
    W: Fn(&VaultFile) -> Result<(), VaultError>,
>(
    before: VaultStore,
    password: Seq<char>,
    present: Result<bool, VaultError>,
    salt: Result<Vec<u8>, VaultError>,
    nonce: Result<Vec<u8>, VaultError>,
    encode: E,
    write: W,
    after: VaultStore,
    r: Result<(), VaultError>,
)
    requires
        vault::create_outcome(
            before,
            password,
            present,
            salt,
            nonce,
            encode,
            write,
            after,
            r,
        ),
    ensures
        password.len() < 7 ==> r is Err,
        password.len() >= 7 && present is Ok && present->Ok_0 ==> r is Err && r->Err_0.0@
            == "Vault already exists"@,
        r is Err ==> after == before,
        r is Ok ==> {
            &&& password.len() >= 7
            &&& present is Ok && !present->Ok_0
            &&& salt is Ok
            &&& after.data is Some && after.key is Some && after.salt is Some
            &&& records(after).len() == 0
            &&& after.data->Some_0.aws is None
            &&& after.data->Some_0.revision == 0
            &&& after.data->Some_0.version == 1
            &&& after.key->Some_0@ == crypto::pbkdf2_sha256(
                vstd::utf8::encode_utf8(password),
                salt->Ok_0@,
                600_000,
            )
            &&& after.salt->Some_0@ == salt->Ok_0@
            &&& after.iterations == 600_000
            &&& after.path == before.path
        },
{
}

/// Changing the password keeps everything in the vault and puts it under the key
/// that PBKDF2 derives from the new password in 600,000 rounds; where it does
/// not succeed, nothing changes.
pub proof fn changing_the_password_changes_the_key_alone<
    E: Fn(&VaultPlaintext) -> Result<Vec<u8>, String>,
    W: Fn(&VaultFile) -> Result<(), VaultError>,
>(
    before: VaultStore,
    password: Seq<char>,
    salt: Result<Vec<u8>, VaultError>,
    nonce: Result<Vec<u8>, VaultError>,
    encode: E,
    write: W,
    after: VaultStore,
    r: Result<(), VaultError>,
)
    requires
        before.wf(),
        vault::change_password_outcome(
            before,
            password,
            salt,
            nonce,
            encode,
            write,
            after,
            r,
        ),
    ensures
        password.len() < 7 ==> r is Err,
        before.data is None ==> r is Err,
        r is Err ==> after == before,
        r is Ok ==> {
            &&& salt is Ok
            &&& after.data == before.data
            &&& after.key is Some
            &&& after.key->Some_0@ == crypto::pbkdf2_sha256(
                vstd::utf8::encode_utf8(password),
                salt->Ok_0@,
                600_000,
            )
            &&& after.salt == Some(salt->Ok_0)
            &&& after.iterations == 600_000
            &&& after.path == before.path
        },
{
}

/// A vault is unlocked only with a password of at least seven characters and a
/// file in the one format whose ciphertext opens under the key that the
/// password, the salt and the rounds of the file give. It then holds what was
/// read: the AWS settings, and of secrets with one name the last. Where it does
/// not succeed, nothing changes.
pub proof fn unlocking_holds_what_the_file_held<P: Fn(&Vec<u8>) -> Option<VaultPlaintext>>(
    before: VaultStore,
    password: Seq<char>,
    file: VaultFile,
    parse: P,
    after: VaultStore,
    r: Result<(), VaultError>,
)
    requires
        after.wf(),
        vault::unlock_outcome(
            before,
            password,
            Ok::<VaultFile, VaultError>(file),
            parse,
            after,
            r,
        ),
    ensures
        r is Err ==> after == before,
        r is Ok ==> {
            let salt = crypto::base64_decoded(file.kdf.salt@);
            let iv = crypto::base64_decoded(file.cipher.iv@);
            let sealed = crypto::base64_decoded(file.ciphertext@);
            &&& password.len() >= 7
            &&& file.version == 1
            &&& file.kdf.name@ == "PBKDF2"@
            &&& file.kdf.hash@ == "SHA-256"@
            &&& 100_000 <= file.kdf.iterations <= 10_000_000
            &&& file.cipher.name@ == "AES-GCM"@
            &&& salt is Some && salt->Some_0.len() >= 16
            &&& iv is Some && iv->Some_0.len() == 12
            &&& sealed is Some
            &&& after.key is Some && after.salt is Some && after.data is Some
            &&& after.key->Some_0@ == crypto::pbkdf2_sha256(
                vstd::utf8::encode_utf8(password),
                salt->Some_0,
                file.kdf.iterations,
            )
            &&& after.salt->Some_0@ == salt->Some_0
            &&& after.iterations == file.kdf.iterations
            &&& after.path == before.path
            &&& exists|buffer: Vec<u8>, found: VaultPlaintext|
                {
                    &&& #[trigger] call_ensures(parse, (&buffer,), Some(found))
                    &&& crypto::gcm_opened(
                        after.key->Some_0@,
                        iv->Some_0,
                        sealed->Some_0,
                        vault::associated(file),
                    ) == Some(buffer@)
                    &&& found.version == 1
                    &&& after.data->Some_0.revision == found.revision
                    &&& after.data->Some_0.aws == found.aws
                    &&& forall|name: Seq<char>, entry: VaultEntry| #[trigger]
                        keeps(after, name, entry) <==> is_last_of(found.secrets@, name, entry)
                }
        },
{
    if r is Ok {
        let bytes = vault::opened(file, password)->Ok_0;
        let (buffer, parsed) = choose|buffer: Vec<u8>, parsed: Option<VaultPlaintext>|
            {
                &&& buffer@ == bytes
                &&& #[trigger] call_ensures(parse, (&buffer,), parsed)
                &&& match parsed {
                    None => vault::refuses(r, "Vault plaintext is invalid"@) && after == before,
                    Some(found) => exists|table: Seq<SecretRecord>|
                        {
                            &&& #[trigger] vault::sorted(table)
                            &&& vault::entries(table) == vault::entries(found.secrets@)
                            &&& match vault::plaintext_error(found.version, table) {
                                Some(error) => vault::refuses(r, error) && after == before,
                                None => r is Ok && vault::is_opened(
                                    after,
                                    before,
                                    file,
                                    password,
                                    found,
                                    table,
                                ),
                            }
                        },
                }
            };
        let found = parsed->Some_0;
        let table = choose|table: Seq<SecretRecord>|
            {
                &&& #[trigger] vault::sorted(table)
                &&& vault::entries(table) == vault::entries(found.secrets@)
                &&& match vault::plaintext_error(found.version, table) {
                    Some(error) => vault::refuses(r, error) && after == before,
                    None => r is Ok && vault::is_opened(
                        after,
                        before,
                        file,
                        password,
                        found,
                        table,
                    ),
                }
            };
        assert(call_ensures(parse, (&buffer,), Some(found)));
        assert forall|name: Seq<char>, entry: VaultEntry| #[trigger]
            keeps(after, name, entry) <==> is_last_of(found.secrets@, name, entry) by {
            map_of_records(after, name);
            the_last_counts(found.secrets@, name, entry);
        }
    }
}

/// Whether the last record with a name has an entry.
pub open spec fn is_last_of(all: Seq<SecretRecord>, name: Seq<char>, entry: VaultEntry) -> bool {
    exists|i: int|
        {
            &&& 0 <= i < all.len()
            &&& (#[trigger] all[i]).name@ == name
            &&& all[i].entry == entry
            &&& forall|j: int| i < j < all.len() ==> (#[trigger] all[j]).name@ != name
        }
}

proof fn the_last_counts(all: Seq<SecretRecord>, name: Seq<char>, entry: VaultEntry)
    ensures
        vault::entries(all).contains_pair(name, entry) <==> is_last_of(all, name, entry),
    decreases all.len(),
{
    if all.len() > 0 {
        let rest = all.drop_last();
        let last = all.len() - 1;
        the_last_counts(rest, name, entry);
        if all[last].name@ == name {
            if all[last].entry == entry {
                assert(is_last_of(all, name, entry));
            }
            if is_last_of(all, name, entry) {
                let i = choose|i: int|
                    {
                        &&& 0 <= i < all.len()
                        &&& (#[trigger] all[i]).name@ == name
                        &&& all[i].entry == entry
                        &&& forall|j: int| i < j < all.len() ==> (#[trigger] all[j]).name@ != name
                    };
                assert(i == last);
            }
        } else {
            if is_last_of(rest, name, entry) {
                let i = choose|i: int|
                    {
                        &&& 0 <= i < rest.len()
                        &&& (#[trigger] rest[i]).name@ == name
                        &&& rest[i].entry == entry
                        &&& forall|j: int|
                            i < j < rest.len() ==> (#[trigger] rest[j]).name@ != name
                    };
                assert(all[i] == rest[i]);
                assert forall|j: int| i < j < all.len() implies (#[trigger] all[j]).name@
                    != name by {
                    if j < rest.len() {
                        assert(rest[j] == all[j]);
                    }
                }
            }
            if is_last_of(all, name, entry) {
                let i = choose|i: int|
                    {
                        &&& 0 <= i < all.len()
                        &&& (#[trigger] all[i]).name@ == name
                        &&& all[i].entry == entry
                        &&& forall|j: int| i < j < all.len() ==> (#[trigger] all[j]).name@ != name
                    };
                assert(rest[i] == all[i]);
                assert forall|j: int| i < j < rest.len() implies (#[trigger] rest[j]).name@
                    != name by {
                    assert(rest[j] == all[j]);
                }
            }
        }
    }
}

/// A password is accepted from seven characters on, and rounds are accepted from
/// a hundred thousand to ten million.
pub proof fn passwords_and_rounds_are_limited(password: Seq<char>, rounds: u32)
    ensures
        vault::is_password(password) <==> password.len() >= 7,
        vault::valid_iterations(rounds) <==> 100_000 <= rounds <= 10_000_000,
{
}

/// A file opens under a password exactly where it is in the one format, its
/// salt, its nonce and its ciphertext can be read, and the ciphertext opens
/// under the key that the password gives, bound to the format and the key
/// derivation; it opens to what the ciphertext holds.
pub proof fn files_open_under_their_password(file: VaultFile, password: Seq<char>)
    ensures
        ({
            let salt = crypto::base64_decoded(file.kdf.salt@);
            let iv = crypto::base64_decoded(file.cipher.iv@);
            let sealed = crypto::base64_decoded(file.ciphertext@);
            let bound = vstd::utf8::encode_utf8(
                "secretd:"@ + numeral::decimal(file.version as nat) + ":"@ + file.kdf.name@ + ":"@
                    + file.kdf.hash@ + ":"@ + numeral::decimal(file.kdf.iterations as nat) + ":"@
                    + file.kdf.salt@,
            );
            let found = crypto::gcm_opened(
                crypto::pbkdf2_sha256(
                    vstd::utf8::encode_utf8(password),
                    salt->Some_0,
                    file.kdf.iterations,
                ),
                iv->Some_0,
                sealed->Some_0,
                bound,
            );
            &&& vault::opened(file, password) is Ok <==> {
                &&& file.version == 1
                &&& file.kdf.name@ == "PBKDF2"@
                &&& file.kdf.hash@ == "SHA-256"@
                &&& 100_000 <= file.kdf.iterations <= 10_000_000
                &&& file.cipher.name@ == "AES-GCM"@
                &&& salt is Some && salt->Some_0.len() >= 16
                &&& iv is Some && iv->Some_0.len() == 12
                &&& sealed is Some && sealed->Some_0.len() <= crypto::MAX_MESSAGE_BYTES + 16
                &&& found is Some
            }
            &&& vault::opened(file, password) matches Ok(bytes) ==> Some(bytes) == found
            &&& vault::associated(file) == bound
        }),
{
}

/// Decrypted contents are accepted exactly where they are of the one version,
/// every name can be kept and every group is empty or can be kept.
pub proof fn contents_are_accepted_as_they_may_be_kept(version: u8, all: Seq<SecretRecord>)
    ensures
        vault::plaintext_error(version, all) is None <==> version == 1 && forall|i: int|
            0 <= i < all.len() ==> vault::normalized_name((#[trigger] all[i]).name@) is Ok && (
            all[i].entry.group is None || vault::normalized_group(
                all[i].entry.group->Some_0@,
            ) is Ok),
{
    records_may_be_kept(all);
}

proof fn records_may_be_kept(all: Seq<SecretRecord>)
    ensures
        vault::records_error(all) is None <==> forall|i: int|
            0 <= i < all.len() ==> vault::normalized_name((#[trigger] all[i]).name@) is Ok && (
            all[i].entry.group is None || vault::normalized_group(
                all[i].entry.group->Some_0@,
            ) is Ok),
    decreases all.len(),
{
    if all.len() > 0 {
        let rest = all.drop_last();
        records_may_be_kept(rest);
        let last = all.len() - 1;
        if vault::records_error(all) is None {
            assert forall|i: int| 0 <= i < all.len() implies vault::normalized_name(
                (#[trigger] all[i]).name@,
            ) is Ok && (all[i].entry.group is None || vault::normalized_group(
                all[i].entry.group->Some_0@,
            ) is Ok) by {
                if i < last {
                    assert(rest[i] == all[i]);
                }
            }
        }
        if forall|i: int|
            0 <= i < all.len() ==> vault::normalized_name((#[trigger] all[i]).name@) is Ok && (
            all[i].entry.group is None || vault::normalized_group(
                all[i].entry.group->Some_0@,
            ) is Ok) {
            assert forall|i: int| 0 <= i < rest.len() implies vault::normalized_name(
                (#[trigger] rest[i]).name@,
            ) is Ok && (rest[i].entry.group is None || vault::normalized_group(
                rest[i].entry.group->Some_0@,
            ) is Ok) by {
                assert(rest[i] == all[i]);
            }
            assert(vault::normalized_name(all[last].name@) is Ok);
        }
    }
}

/// A secret that is edited under another name is kept under that name alone,
/// with the value that was typed, its group and the time of its creation; every
/// other secret stays.
pub proof fn edited_secrets_move_and_change<
    E: Fn(&VaultPlaintext) -> Result<Vec<u8>, String>,
    W: Fn(&VaultFile) -> Result<(), VaultError>,
>(
    before: VaultStore,
    previous: &str,
    from: Seq<char>,
    name: Seq<char>,
    to: Seq<char>,
    value: Seq<char>,
    now: String,
    rename_nonce: Result<Vec<u8>, VaultError>,
    nonce: Result<Vec<u8>, VaultError>,
    encode: E,
    write: W,
    after: VaultStore,
    r: Result<(), VaultError>,
    j: int,
)
    requires
        before.wf(),
        after.wf(),
        before.data is Some,
        vault::normalized_name(previous@) == Ok::<Seq<char>, Seq<char>>(from),
        vault::normalized_name(name) == Ok::<Seq<char>, Seq<char>>(to),
        from != to,
        0 <= j < records(before).len(),
        records(before)[j].name@ == from,
        controller::save_outcome(
            before,
            name,
            value,
            Some(previous),
            now,
            rename_nonce,
            nonce,
            encode,
            write,
            after,
            r,
        ),
    ensures
        has_name(before, to) ==> r is Err && after == before,
        r is Ok ==> {
            &&& !has_name(after, from)
            &&& exists|i: int|
                {
                    &&& 0 <= i < records(after).len()
                    &&& (#[trigger] records(after)[i]).name@ == to
                    &&& records(after)[i].entry.value@ == value
                    &&& records(after)[i].entry.created_at@ == records(before)[j].entry.created_at@
                    &&& records(after)[i].entry.updated_at@ == now@
                    &&& records(after)[i].entry.group is Some
                        <==> records(before)[j].entry.group is Some
                    &&& records(before)[j].entry.group is Some
                        ==> records(after)[i].entry.group->Some_0@
                        == records(before)[j].entry.group->Some_0@
                }
            &&& forall|other: Seq<char>, entry: VaultEntry|
                other != from && other != to ==> (#[trigger] keeps(after, other, entry) <==> keeps(
                    before,
                    other,
                    entry,
                ))
            &&& after.data->Some_0.aws == before.data->Some_0.aws
        },
{
    map_of_records(before, from);
    map_of_records(before, to);
    assert(has_name(before, from));
    assert(keeps(before, from, records(before)[j].entry));
    let (renamed, done) = choose|renamed: VaultStore, done: Result<(), VaultError>|
        {
            &&& #[trigger] vault::rename_outcome(
                before,
                previous@,
                name,
                now,
                rename_nonce,
                encode,
                write,
                renamed,
                done,
            )
            &&& if done is Err {
                r == done && after == renamed
            } else {
                vault::save_secret_outcome(
                    renamed,
                    name,
                    value,
                    None,
                    now@,
                    nonce,
                    encode,
                    write,
                    after,
                    r,
                )
            }
        };
    if r is Ok {
        map_of_records(after, from);
        map_of_records(after, to);
        let chosen = vault::chosen_group(renamed, to, None)->Ok_0;
        let entry = choose|entry: VaultEntry|
            vault::secrets(after) == #[trigger] vault::secrets(renamed).insert(to, entry)
                && vault::is_written(entry, vault::secrets(renamed), to, value, chosen, now@);
        assert(vault::secrets(after).contains_pair(to, entry));
        assert(keeps(after, to, entry));
        assert forall|other: Seq<char>, entry: VaultEntry|
            other != from && other != to implies (#[trigger] keeps(after, other, entry) <==> keeps(
            before,
            other,
            entry,
        )) by {
            map_of_records(before, other);
            map_of_records(after, other);
        }
    }
}

/// While the vault is locked nothing can be saved, renamed, deleted or changed.
pub proof fn a_locked_vault_changes_nothing<
    E: Fn(&VaultPlaintext) -> Result<Vec<u8>, String>,
    W: Fn(&VaultFile) -> Result<(), VaultError>,
>(
    before: VaultStore,
    name: Seq<char>,
    other: Seq<char>,
    group: Option<&str>,
    now: String,
    nonce: Result<Vec<u8>, VaultError>,
    settings: AwsSettings,
    encode: E,
    write: W,
    after: VaultStore,
    r: Result<(), VaultError>,
)
    requires
        before.wf(),
        before.data is None,
        vault::save_secret_outcome(
            before,
            name,
            other,
            group,
            now@,
            nonce,
            encode,
            write,
            after,
            r,
        ) || vault::rename_outcome(before, name, other, now, nonce, encode, write, after, r)
            || vault::delete_outcome(before, name, nonce, encode, write, after, r)
            || vault::save_aws_outcome(before, settings, nonce, encode, write, after, r),
    ensures
        r is Err,
        after == before,
{
}

/// AWS settings are kept as they are given, and no secret changes.
pub proof fn aws_settings_are_kept<
    E: Fn(&VaultPlaintext) -> Result<Vec<u8>, String>,
    W: Fn(&VaultFile) -> Result<(), VaultError>,
>(
    before: VaultStore,
    settings: AwsSettings,
    nonce: Result<Vec<u8>, VaultError>,
    encode: E,
    write: W,
    after: VaultStore,
    r: Result<(), VaultError>,
)
    requires
        before.wf(),
        before.data is Some,
        vault::save_aws_outcome(before, settings, nonce, encode, write, after, r),
    ensures
        after.data is Some,
        after.data->Some_0.aws == Some(settings),
        records(after) == records(before),
        after.key == before.key,
        after.salt == before.salt,
        after.iterations == before.iterations,
        after.path == before.path,
{
}

/// What keeps a file closed is told: first its format, next the parts that cannot
/// be read, and last a password that does not fit.
pub proof fn closed_files_say_why(file: VaultFile, password: Seq<char>)
    ensures
        ({
            let salt = crypto::base64_decoded(file.kdf.salt@);
            let iv = crypto::base64_decoded(file.cipher.iv@);
            let sealed = crypto::base64_decoded(file.ciphertext@);
            let known = file.version == 1 && file.kdf.name@ == "PBKDF2"@ && file.kdf.hash@
                == "SHA-256"@ && 100_000 <= file.kdf.iterations <= 10_000_000 && file.cipher.name@
                == "AES-GCM"@;
            let salted = salt is Some && salt->Some_0.len() >= 16;
            let started = iv is Some && iv->Some_0.len() == 12;
            &&& !known ==> vault::opened(file, password) == Err::<Seq<u8>, Seq<char>>(
                "Vault file has an unsupported format"@,
            )
            &&& known && !salted ==> vault::opened(file, password) == Err::<Seq<u8>, Seq<char>>(
                "Vault salt is invalid"@,
            )
            &&& known && salted && !started ==> vault::opened(file, password) == Err::<
                Seq<u8>,
                Seq<char>,
            >("Vault IV is invalid"@)
            &&& known && salted && started && sealed is None ==> vault::opened(file, password)
                == Err::<Seq<u8>, Seq<char>>("Vault ciphertext is invalid"@)
            &&& known && salted && started && sealed is Some && vault::opened(file, password) is Err
                ==> vault::opened(file, password) == Err::<Seq<u8>, Seq<char>>(
                "Invalid password or corrupted vault"@,
            )
        }),
{
}

/// There is a vault where there is a plain file; where nothing is there, there is
/// none; that nobody could look is an error of its own.
pub proof fn vaults_are_found_in_plain_files(found: Result<bool, Option<String>>)
    ensures
        vault::found_vault(found) == Ok::<bool, Seq<char>>(true) <==> found == Ok::<
            bool,
            Option<String>,
        >(true),
        vault::found_vault(found) is Err <==> found is Err && found->Err_0 is Some,
        found matches Err(Some(error)) ==> vault::found_vault(found) == Err::<bool, Seq<char>>(
            error@,
        ),
{
}

/// Every change has the next revision, until there is none.
pub proof fn revisions_are_counted(revision: u64)
    ensures
        revision < u64::MAX ==> vault::next_revision(revision) == revision + 1,
        revision == u64::MAX ==> vault::next_revision(revision) == revision,
{
}

/// Contents are too large to be written only where the cipher does not take them
/// or what they are bound to.
pub proof fn large_contents_are_not_written(bytes: Seq<u8>, iterations: u32, salt: Seq<u8>)
    ensures
        vault::exceeds(bytes, iterations, salt) <==> bytes.len() > crypto::MAX_MESSAGE_BYTES || (
        "secretd:"@ + numeral::decimal(1) + ":"@ + "PBKDF2"@ + ":"@ + "SHA-256"@ + ":"@
            + numeral::decimal(iterations as nat) + ":"@).len() + crypto::base64_length(salt.len())
            > crypto::MAX_ASSOCIATED_BYTES,
{
}

} // verus!
