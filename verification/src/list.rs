//! Reading a JSON array item by item.

use crate::error::{ErrorView, TranslateError};
use crate::fields::{outcome, schema_error};
use crate::json::{items_view, lemma_items_view, Json, JsonView};
use vstd::prelude::*;

verus! {

/// Reads every item of `items` with `read`, in order. The result holds what
/// was read, in the order of the items; the first item that cannot be read
/// gives the error of the whole.
pub open spec fn each<T>(
    items: Seq<JsonView>,
    read: spec_fn(JsonView) -> Result<T, ErrorView>,
) -> Result<Seq<T>, ErrorView>
    decreases items.len(),
{
    if items.len() == 0 {
        Ok(Seq::empty())
    } else {
        let before = each(items.drop_last(), read);
        let last = read(items.last());
        if before is Err {
            Err(before->Err_0)
        } else if last is Err {
            Err(last->Err_0)
        } else {
            Ok(before->Ok_0.push(last->Ok_0))
        }
    }
}

/// Reading one item more: the step from the first `i` items to the first
/// `i + 1`.
pub proof fn lemma_each_next<T>(
    items: Seq<JsonView>,
    read: spec_fn(JsonView) -> Result<T, ErrorView>,
    i: int,
)
    requires
        0 <= i < items.len(),
    ensures
        each(items.take(i + 1), read) == (match each(items.take(i), read) {
            Err(e) => Err(e),
            Ok(before) => match read(items[i]) {
                Err(e) => Err(e),
                Ok(value) => Ok(before.push(value)),
            },
        }),
{
    let longer = items.take(i + 1);
    assert(longer.drop_last() =~= items.take(i));
    assert(longer.last() == items[i]);
}

/// An error among the first items is the error of the whole.
pub proof fn lemma_each_fails<T>(
    items: Seq<JsonView>,
    read: spec_fn(JsonView) -> Result<T, ErrorView>,
    i: int,
)
    requires
        0 <= i <= items.len(),
        each(items.take(i), read) is Err,
    ensures
        each(items, read) == each(items.take(i), read),
    decreases items.len() - i,
{
    if i < items.len() {
        lemma_each_next(items, read, i);
        lemma_each_fails(items, read, i + 1);
    } else {
        assert(items.take(i) =~= items);
    }
}

/// Order is kept: where all items are read, the result has one entry for
/// each item, at the item's place, and it is what `read` gives for the item.
pub proof fn lemma_each_keeps_order<T>(
    items: Seq<JsonView>,
    read: spec_fn(JsonView) -> Result<T, ErrorView>,
)
    requires
        each(items, read) is Ok,
    ensures
        each(items, read)->Ok_0.len() == items.len(),
        forall|i: int|
            0 <= i < items.len() ==> read(#[trigger] items[i]) == Ok::<T, ErrorView>(
                each(items, read)->Ok_0[i],
            ),
    decreases items.len(),
{
    if items.len() > 0 {
        lemma_each_keeps_order(items.drop_last(), read);
        let before = each(items.drop_last(), read)->Ok_0;
        assert forall|i: int| 0 <= i < items.len() implies read(#[trigger] items[i]) == Ok::<
            T,
            ErrorView,
        >(each(items, read)->Ok_0[i]) by {
            if i < items.len() - 1 {
                assert(items.drop_last()[i] == items[i]);
            }
        }
    }
}

/// Where every item is read, the whole is read, entry by entry.
pub proof fn lemma_each_reads_all<T>(
    items: Seq<JsonView>,
    read: spec_fn(JsonView) -> Result<T, ErrorView>,
    values: Seq<T>,
)
    requires
        values.len() == items.len(),
        forall|i: int|
            0 <= i < items.len() ==> read(#[trigger] items[i]) == Ok::<T, ErrorView>(values[i]),
    ensures
        each(items, read) == Ok::<Seq<T>, ErrorView>(values),
    decreases items.len(),
{
    if items.len() > 0 {
        assert forall|i: int| 0 <= i < items.len() - 1 implies read(
            #[trigger] items.drop_last()[i],
        ) == Ok::<T, ErrorView>(values.drop_last()[i]) by {
            assert(items.drop_last()[i] == items[i]);
        }
        lemma_each_reads_all(items.drop_last(), read, values.drop_last());
        assert(read(items.last()) == Ok::<T, ErrorView>(values.last())) by {
            assert(items.last() == items[items.len() - 1]);
        }
        assert(values.drop_last().push(values.last()) =~= values);
    } else {
        assert(values =~= Seq::<T>::empty());
    }
}

/// The views of the elements of a list, in order.
pub open spec fn views<T: View>(list: Seq<T>) -> Seq<T::V> {
    list.map_values(|t: T| t@)
}

/// Reads the items of an array member, where the member itself was read.
pub open spec fn then_each<T>(
    member: Result<Seq<JsonView>, ErrorView>,
    read: spec_fn(JsonView) -> Result<T, ErrorView>,
) -> Result<Seq<T>, ErrorView> {
    match member {
        Err(e) => Err(e),
        Ok(items) => each(items, read),
    }
}

/// Reads the items of an optional array member, where the member itself was
/// read.
pub open spec fn then_each_optional<T>(
    member: Result<Option<Seq<JsonView>>, ErrorView>,
    read: spec_fn(JsonView) -> Result<T, ErrorView>,
) -> Result<Option<Seq<T>>, ErrorView> {
    match member {
        Err(e) => Err(e),
        Ok(None) => Ok(None),
        Ok(Some(items)) => match each(items, read) {
            Err(e) => Err(e),
            Ok(values) => Ok(Some(values)),
        },
    }
}

/// Reads an item that has to be a string; `object` and `key` name the array
/// for the schema error.
pub open spec fn text_reader(object: Seq<char>, key: Seq<char>) -> spec_fn(JsonView) -> Result<
    Seq<char>,
    ErrorView,
> {
    |j: JsonView|
        match j {
            JsonView::Text(s) => Ok(s),
            _ => Err(schema_error(object, key)),
        }
}

/// The JSON strings of a list of strings.
pub open spec fn texts_json(texts: Seq<Seq<char>>) -> Seq<JsonView> {
    texts.map_values(|t: Seq<char>| JsonView::Text(t))
}

/// A list of strings that is written and read again is the same list.
pub proof fn lemma_texts_round_trip(texts: Seq<Seq<char>>, object: Seq<char>, key: Seq<char>)
    ensures
        each(texts_json(texts), text_reader(object, key)) == Ok::<Seq<Seq<char>>, ErrorView>(texts),
{
    lemma_each_reads_all(texts_json(texts), text_reader(object, key), texts);
}

/// Reads an array of strings.
pub fn texts_from(items: &Vec<Json>, object: &str, key: &str) -> (out: Result<
    Vec<String>,
    TranslateError,
>)
    ensures
        outcome(out, |v: Vec<String>| views(v@)) == each(
            items_view(items@),
            text_reader(object@, key@),
        ),
{
    let ghost all = items_view(items@);
    let ghost read = text_reader(object@, key@);
    proof {
        lemma_items_view(items@);
    }
    let mut out: Vec<String> = Vec::new();
    let mut i: usize = 0;
    assert(views(out@) =~= Seq::<Seq<char>>::empty());
    while i < items.len()
        invariant
            i <= items.len(),
            all == items_view(items@),
            read == text_reader(object@, key@),
            all.len() == items.len(),
            forall|k: int| 0 <= k < items.len() ==> #[trigger] all[k] == items[k]@,
            each(all.take(i as int), read) == Ok::<Seq<Seq<char>>, ErrorView>(views(out@)),
        decreases items.len() - i,
    {
        proof {
            lemma_each_next(all, read, i as int);
        }
        let ghost before = views(out@);
        match &items[i] {
            Json::Text(s) => {
                out.push(s.clone());
                assert(views(out@) =~= before.push(s@));
            },
            _ => {
                proof {
                    lemma_each_fails(all, read, i + 1);
                }
                return Err(TranslateError::schema(object, key));
            },
        }
        i += 1;
    }
    assert(all.take(i as int) =~= all);
    Ok(out)
}

/// Writes a list of strings as JSON strings.
pub fn texts_to_json(texts: &Vec<String>) -> (out: Vec<Json>)
    ensures
        items_view(out@) == texts_json(views(texts@)),
{
    let mut out: Vec<Json> = Vec::new();
    let mut i: usize = 0;
    while i < texts.len()
        invariant
            i <= texts.len(),
            out.len() == i,
            forall|k: int| 0 <= k < i ==> (#[trigger] out[k])@ == JsonView::Text(texts[k]@),
        decreases texts.len() - i,
    {
        out.push(Json::Text(texts[i].clone()));
        i += 1;
    }
    proof {
        lemma_items_view(out@);
    }
    assert(items_view(out@) =~= texts_json(views(texts@)));
    out
}

} // verus!
