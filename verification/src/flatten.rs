//! Flattening: from a JSON value to its ordered sequence of match records.

use crate::json::{members_view, render_scalar, scalar_text, Json, Member, Tree};
use vstd::prelude::*;

verus! {

/// The path of the member `key` of an object found at `path`.
pub open spec fn member_path(path: Seq<char>, key: Seq<char>) -> Seq<char> {
    path + seq!['/'] + key
}

/// The records of `value` found at `path`, in traversal order. Each record is
/// a pair of a path and the text of the leaf found there.
///
/// A scalar gives one record with its JSON text. An empty array gives one
/// record with the text `[]`, an empty object one with the text `{}`. The
/// elements of an array are flattened under the array's own path; the
/// members of an object are flattened under the path extended by their key.
pub open spec fn records(value: Tree, path: Seq<char>) -> Seq<(Seq<char>, Seq<char>)>
    decreases value,
{
    match value {
        Tree::Array(items) => if items.len() == 0 {
            seq![(path, seq!['[', ']'])]
        } else {
            item_records(items, path).flatten()
        },
        Tree::Object(members) => if members.len() == 0 {
            seq![(path, seq!['{', '}'])]
        } else {
            member_records(members, path).flatten()
        },
        _ => seq![(path, scalar_text(value).unwrap())],
    }
}

/// For each element of an array found at `path`, the records of that element.
pub open spec fn item_records(items: Seq<Tree>, path: Seq<char>) -> Seq<
    Seq<(Seq<char>, Seq<char>)>,
>
    decreases items,
{
    Seq::new(
        items.len(),
        |i: int|
            if 0 <= i < items.len() {
                records(items[i], path)
            } else {
                Seq::empty()
            },
    )
}

/// For each member of an object found at `path`, the records of that member.
pub open spec fn member_records(members: Seq<(Seq<char>, Tree)>, path: Seq<char>) -> Seq<
    Seq<(Seq<char>, Seq<char>)>,
>
    decreases members,
{
    Seq::new(
        members.len(),
        |i: int|
            if 0 <= i < members.len() {
                records(members[i].1, member_path(path, members[i].0))
            } else {
                Seq::empty()
            },
    )
}

/// For each top-level member of a document, the records of that member. The
/// path of a top-level member is its key.
pub open spec fn top_level_records(document: Seq<(Seq<char>, Tree)>) -> Seq<
    Seq<(Seq<char>, Seq<char>)>,
> {
    Seq::new(document.len(), |i: int| records(document[i].1, document[i].0))
}

/// The records of a document: those of its top-level members, in order. A
/// document without members has no records.
pub open spec fn document_records(document: Seq<(Seq<char>, Tree)>) -> Seq<
    (Seq<char>, Seq<char>),
> {
    top_level_records(document).flatten()
}

/// One match record: a path and the rendered text of the leaf found there.
#[derive(Debug, PartialEq, Eq)]
pub struct MatchRecord {
    pub path: String,
    pub text: String,
}

impl View for MatchRecord {
    type V = (Seq<char>, Seq<char>);

    open spec fn view(&self) -> (Seq<char>, Seq<char>) {
        (self.path@, self.text@)
    }
}

/// The views of a sequence of records, in order.
pub open spec fn record_views(found: Seq<MatchRecord>) -> Seq<(Seq<char>, Seq<char>)> {
    Seq::new(found.len(), |i: int| found[i]@)
}

/// The first `i + 1` parts, joined, are the first `i` parts, joined,
/// followed by part `i`.
pub(crate) proof fn lemma_take_next<A>(parts: Seq<Seq<A>>, i: int)
    requires
        0 <= i < parts.len(),
    ensures
        parts.take(i + 1).flatten() == parts.take(i).flatten() + parts[i],
        parts.take(0).flatten() == Seq::<A>::empty(),
        parts.take(parts.len() as int) == parts,
{
    assert(parts.take(i + 1) =~= parts.take(i).push(parts[i]));
    parts.take(i).lemma_flatten_push(parts[i]);
    assert(parts.take(0) =~= Seq::<Seq<A>>::empty());
    assert(parts.take(parts.len() as int) =~= parts);
}

/// The sum of a sequence of counts.
pub open spec fn total(counts: Seq<nat>) -> nat
    decreases counts.len(),
{
    if counts.len() == 0 {
        0
    } else {
        total(counts.drop_last()) + counts.last()
    }
}

/// The three kinds of leaf that give a record.
pub enum Leaf {
    Scalar,
    EmptyArray,
    EmptyObject,
}

/// The number of leaves of one kind in `value`, `value` itself included.
pub open spec fn leaves(value: Tree, kind: Leaf) -> nat
    decreases value,
{
    match value {
        Tree::Array(items) => if items.len() == 0 {
            if kind is EmptyArray {
                1
            } else {
                0
            }
        } else {
            total(item_leaves(items, kind))
        },
        Tree::Object(members) => if members.len() == 0 {
            if kind is EmptyObject {
                1
            } else {
                0
            }
        } else {
            total(member_leaves(members, kind))
        },
        _ => if kind is Scalar {
            1
        } else {
            0
        },
    }
}

/// For each element of an array, the number of its leaves of one kind.
pub open spec fn item_leaves(items: Seq<Tree>, kind: Leaf) -> Seq<nat>
    decreases items,
{
    Seq::new(
        items.len(),
        |i: int|
            if 0 <= i < items.len() {
                leaves(items[i], kind)
            } else {
                0
            },
    )
}

/// For each member of an object, the number of its leaves of one kind.
pub open spec fn member_leaves(members: Seq<(Seq<char>, Tree)>, kind: Leaf) -> Seq<nat>
    decreases members,
{
    Seq::new(
        members.len(),
        |i: int|
            if 0 <= i < members.len() {
                leaves(members[i].1, kind)
            } else {
                0
            },
    )
}

/// The number of scalars in `value`.
pub open spec fn scalar_leaves(value: Tree) -> nat {
    leaves(value, Leaf::Scalar)
}

/// The number of empty arrays in `value`, `value` itself included.
pub open spec fn empty_arrays(value: Tree) -> nat {
    leaves(value, Leaf::EmptyArray)
}

/// The number of empty objects in `value`, `value` itself included.
pub open spec fn empty_objects(value: Tree) -> nat {
    leaves(value, Leaf::EmptyObject)
}

/// Where each part is as long as three counts together, the parts joined
/// are as long as the three sums together.
proof fn lemma_flatten_len<A>(parts: Seq<Seq<A>>, a: Seq<nat>, b: Seq<nat>, c: Seq<nat>)
    requires
        a.len() == parts.len(),
        b.len() == parts.len(),
        c.len() == parts.len(),
        forall|i: int| 0 <= i < parts.len() ==> (#[trigger] parts[i]).len() == a[i] + b[i] + c[i],
    ensures
        parts.flatten().len() == total(a) + total(b) + total(c),
    decreases parts.len(),
{
    if parts.len() > 0 {
        lemma_flatten_len(parts.drop_last(), a.drop_last(), b.drop_last(), c.drop_last());
        parts.drop_last().lemma_flatten_push(parts.last());
        assert(parts.drop_last().push(parts.last()) =~= parts);
    }
}

/// Every scalar, every empty array and every empty object of a value gives
/// exactly one record: the number of records of `value` is the number of
/// its scalars, plus the number of its empty objects, plus the number of
/// its empty arrays, whatever the path.
pub proof fn lemma_record_count(value: Tree, path: Seq<char>)
    ensures
        records(value, path).len() == scalar_leaves(value) + empty_objects(value) + empty_arrays(
            value,
        ),
    decreases value,
{
    match value {
        Tree::Array(items) => {
            if items.len() > 0 {
                let parts = item_records(items, path);
                let a = item_leaves(items, Leaf::Scalar);
                let b = item_leaves(items, Leaf::EmptyObject);
                let c = item_leaves(items, Leaf::EmptyArray);
                assert forall|i: int| 0 <= i < parts.len() implies (#[trigger] parts[i]).len()
                    == a[i] + b[i] + c[i] by {
                    lemma_record_count(items[i], path);
                }
                lemma_flatten_len(parts, a, b, c);
            }
        },
        Tree::Object(members) => {
            if members.len() > 0 {
                let parts = member_records(members, path);
                let a = member_leaves(members, Leaf::Scalar);
                let b = member_leaves(members, Leaf::EmptyObject);
                let c = member_leaves(members, Leaf::EmptyArray);
                assert forall|i: int| 0 <= i < parts.len() implies (#[trigger] parts[i]).len()
                    == a[i] + b[i] + c[i] by {
                    lemma_record_count(members[i].1, member_path(path, members[i].0));
                }
                lemma_flatten_len(parts, a, b, c);
            }
        },
        _ => {},
    }
}

/// The count holds of a document too, over the values of its members: the
/// number of records of a document is the number of scalars, plus the
/// number of empty objects, plus the number of empty arrays, found in the
/// values of its top-level members.
pub proof fn lemma_document_record_count(document: Seq<(Seq<char>, Tree)>)
    ensures
        document_records(document).len() == total(member_leaves(document, Leaf::Scalar)) + total(
            member_leaves(document, Leaf::EmptyObject),
        ) + total(member_leaves(document, Leaf::EmptyArray)),
{
    let parts = top_level_records(document);
    let a = member_leaves(document, Leaf::Scalar);
    let b = member_leaves(document, Leaf::EmptyObject);
    let c = member_leaves(document, Leaf::EmptyArray);
    assert forall|i: int| 0 <= i < parts.len() implies (#[trigger] parts[i]).len() == a[i] + b[i]
        + c[i] by {
        lemma_record_count(document[i].1, document[i].0);
    }
    lemma_flatten_len(parts, a, b, c);
}

/// An empty container gives exactly one record, with its own marker as the
/// text: `{}` for an empty object and `[]` for an empty array. The same
/// holds of a document whose only member is an empty container: the path of
/// its one record is the member's key.
pub proof fn lemma_empty_containers(path: Seq<char>)
    ensures
        records(Tree::Object(Seq::empty()), path) == seq![(path, seq!['{', '}'])],
        records(Tree::Array(Seq::empty()), path) == seq![(path, seq!['[', ']'])],
        document_records(seq![(path, Tree::Object(Seq::empty()))]) == seq![
            (path, seq!['{', '}']),
        ],
        document_records(seq![(path, Tree::Array(Seq::empty()))]) == seq![(path, seq!['[', ']'])],
{
    top_level_records(seq![(path, Tree::Object(Seq::empty()))]).lemma_flatten_one_element();
    top_level_records(seq![(path, Tree::Array(Seq::empty()))]).lemma_flatten_one_element();
}

/// An array adds nothing to the path: the records of a non-empty array are
/// the records of its elements, each flattened under the array's own path,
/// one element after another.
pub proof fn lemma_array_transparent(items: Seq<Tree>, path: Seq<char>)
    requires
        items.len() > 0,
    ensures
        records(Tree::Array(items), path) == item_records(items, path).flatten(),
        item_records(items, path).len() == items.len(),
        forall|i: int|
            0 <= i < items.len() ==> #[trigger] item_records(items, path)[i] == records(
                items[i],
                path,
            ),
{
}

/// The scalars of an array all stand under the array's own path: an array
/// of scalars gives one record for each element, in order, each with the
/// path of the array and the text of the element.
pub proof fn lemma_array_of_scalars(items: Seq<Tree>, path: Seq<char>)
    requires
        items.len() > 0,
        forall|i: int| 0 <= i < items.len() ==> (#[trigger] items[i]).is_scalar(),
    ensures
        records(Tree::Array(items), path) == Seq::new(
            items.len(),
            |i: int| (path, scalar_text(items[i]).unwrap()),
        ),
{
    let parts = item_records(items, path);
    let singles = Seq::new(items.len(), |i: int| (path, scalar_text(items[i]).unwrap()));
    assert forall|i: int| 0 <= i < parts.len() implies #[trigger] parts[i] == seq![singles[i]] by {
        assert(items[i].is_scalar());
    }
    lemma_flatten_singles(parts, singles);
}

/// Parts of one element each, joined, are those elements.
proof fn lemma_flatten_singles<A>(parts: Seq<Seq<A>>, singles: Seq<A>)
    requires
        parts.len() == singles.len(),
        forall|i: int| 0 <= i < parts.len() ==> #[trigger] parts[i] == seq![singles[i]],
    ensures
        parts.flatten() == singles,
    decreases parts.len(),
{
    if parts.len() > 0 {
        lemma_flatten_singles(parts.drop_last(), singles.drop_last());
        parts.drop_last().lemma_flatten_push(parts.last());
        assert(parts.drop_last().push(parts.last()) =~= parts);
        assert(singles.drop_last() + seq![singles.last()] =~= singles);
    } else {
        assert(parts.flatten() =~= singles);
    }
}

/// Flattens `value`, found at `path`, into its records.
pub fn flatten(value: &Json, path: &str) -> (found: Vec<MatchRecord>)
    ensures
        record_views(found@) == records(value@, path@),
        found.len() == records(value@, path@).len(),
{
    let mut found: Vec<MatchRecord> = Vec::new();
    assert(record_views(found@) =~= Seq::empty());
    flatten_into(value, path, &mut found);
    found
}

/// Appends the records of `value`, found at `path`, to `found`.
pub fn flatten_into(value: &Json, path: &str, found: &mut Vec<MatchRecord>)
    ensures
        record_views(final(found)@) == record_views(old(found)@) + records(value@, path@),
    decreases value,
{
    let ghost before = record_views(found@);
    match value {
        Json::Array(items) => {
            if items.len() == 0 {
                proof {
                    reveal_strlit("[]");
                }
                assert("[]"@ =~= seq!['[', ']']);
                found.push(MatchRecord { path: path.to_owned(), text: "[]".to_owned() });
                assert(record_views(found@) =~= before + records(value@, path@));
            } else {
                let ghost parts = item_records(value@->Array_0, path@);
                let mut i: usize = 0;
                proof {
                    lemma_take_next(parts, 0);
                }
                while i < items.len()
                    invariant
                        i <= items.len(),
                        *value == Json::Array(*items),
                        parts == item_records(value@->Array_0, path@),
                        parts.len() == items.len(),
                        record_views(found@) == before + parts.take(i as int).flatten(),
                    decreases items.len() - i,
                {
                    proof {
                        lemma_take_next(parts, i as int);
                    }
                    flatten_into(&items[i], path, found);
                    i += 1;
                }
            }
        },
        Json::Object(members) => {
            if members.len() == 0 {
                proof {
                    reveal_strlit("{}");
                }
                assert("{}"@ =~= seq!['{', '}']);
                found.push(MatchRecord { path: path.to_owned(), text: "{}".to_owned() });
                assert(record_views(found@) =~= before + records(value@, path@));
            } else {
                let ghost parts = member_records(value@->Object_0, path@);
                let mut i: usize = 0;
                proof {
                    lemma_take_next(parts, 0);
                }
                while i < members.len()
                    invariant
                        i <= members.len(),
                        *value == Json::Object(*members),
                        parts == member_records(value@->Object_0, path@),
                        parts.len() == members.len(),
                        record_views(found@) == before + parts.take(i as int).flatten(),
                    decreases members.len() - i,
                {
                    proof {
                        lemma_take_next(parts, i as int);
                    }
                    let inner = extend_path(path, members[i].key.as_str());
                    flatten_into(&members[i].value, inner.as_str(), found);
                    i += 1;
                }
            }
        },
        _ => {
            let text = render_scalar(value);
            match text {
                Some(text) => {
                    found.push(MatchRecord { path: path.to_owned(), text });
                    assert(record_views(found@) =~= before + records(value@, path@));
                },
                None => {},
            }
        },
    }
}

/// Flattens a document into its records: those of its top-level members,
/// in order, each found at its key.
pub fn flatten_document(members: &Vec<Member>) -> (found: Vec<MatchRecord>)
    ensures
        record_views(found@) == document_records(members_view(members@)),
        found.len() == document_records(members_view(members@)).len(),
{
    let ghost parts = top_level_records(members_view(members@));
    let mut found: Vec<MatchRecord> = Vec::new();
    let mut i: usize = 0;
    proof {
        assert(record_views(found@) =~= Seq::empty());
        assert(parts.take(0) =~= Seq::empty());
    }
    while i < members.len()
        invariant
            i <= members.len(),
            parts == top_level_records(members_view(members@)),
            parts.len() == members.len(),
            record_views(found@) == parts.take(i as int).flatten(),
        decreases members.len() - i,
    {
        proof {
            lemma_take_next(parts, i as int);
        }
        flatten_into(&members[i].value, members[i].key.as_str(), &mut found);
        i += 1;
    }
    proof {
        assert(parts.take(members.len() as int) =~= parts);
    }
    found
}

/// Builds the path of the member `key` of an object found at `path`.
pub fn extend_path(path: &str, key: &str) -> (inner: String)
    ensures
        inner@ == member_path(path@, key@),
{
    proof {
        reveal_strlit("/");
    }
    assert("/"@ =~= seq!['/']);
    let mut inner = path.to_owned();
    inner.append("/");
    inner.append(key);
    inner
}

} // verus!
