//! Lookup by tag in a list of sibling items: the first item with the tag,
//! its value, its children, and the value read through one of the coercions.

use crate::e3dc::value::{
    any_to_bool, any_to_f64, any_to_string, any_to_u64, cannot_convert, DynamicValue, TaggedItem,
};
use crate::errors::{agrees, E3dcError, Failure};
use crate::float::Float64;
use vstd::prelude::*;

verus! {

/// Some item of the list has the tag.
pub open spec fn has_tag(items: Seq<TaggedItem>, tag: u32) -> bool {
    exists|i: int| 0 <= i < items.len() && (#[trigger] items[i]).tag == tag
}

/// The item at `i` has the tag and no item before it has.
pub open spec fn is_first(items: Seq<TaggedItem>, tag: u32, i: int) -> bool {
    &&& 0 <= i < items.len()
    &&& items[i].tag == tag
    &&& forall|j: int| 0 <= j < i ==> (#[trigger] items[j]).tag != tag
}

/// The place of the first item with the tag, where there is one.
pub open spec fn first_with_tag(items: Seq<TaggedItem>, tag: u32) -> int {
    choose|i: int| is_first(items, tag, i)
}

/// There is one first item with a tag at most.
pub proof fn lemma_first_is_unique(items: Seq<TaggedItem>, tag: u32, i: int)
    requires
        is_first(items, tag, i),
    ensures
        has_tag(items, tag),
        first_with_tag(items, tag) == i,
{
    let c = first_with_tag(items, tag);
    assert(is_first(items, tag, c));
    if c < i {
        assert(items[c].tag != tag);
    }
    if i < c {
        assert(items[i].tag != tag);
    }
}

/// The first item with the tag, or the failure that names the missing tag.
pub open spec fn item_at(items: Seq<TaggedItem>, tag: u32) -> Result<TaggedItem, Failure> {
    if has_tag(items, tag) {
        Ok(items[first_with_tag(items, tag)])
    } else {
        Err(Failure::MissingTag(tag))
    }
}

/// The value of the first item with the tag. An item without a value fails
/// as missing data.
pub open spec fn value_at(items: Seq<TaggedItem>, tag: u32) -> Result<DynamicValue, Failure> {
    match item_at(items, tag) {
        Err(f) => Err(f),
        Ok(item) => match item.value {
            Some(v) => Ok(v),
            None => Err(Failure::MissingData(tag)),
        },
    }
}

/// The items inside a value: those of a container, none for anything else.
pub open spec fn children_of(value: Option<DynamicValue>) -> Seq<TaggedItem> {
    match value {
        Some(v) => v.children(),
        None => Seq::empty(),
    }
}

/// The children of the first item with the tag: an item that is no
/// container has none, a missing tag fails.
pub open spec fn children_at(items: Seq<TaggedItem>, tag: u32) -> Result<
    Seq<TaggedItem>,
    Failure,
> {
    match item_at(items, tag) {
        Err(f) => Err(f),
        Ok(item) => Ok(children_of(item.value)),
    }
}

/// The items of the container under the tag. A missing tag, an item
/// without a value and a value that is no container all fail.
pub open spec fn container_at(items: Seq<TaggedItem>, tag: u32) -> Result<
    Seq<TaggedItem>,
    Failure,
> {
    match value_at(items, tag) {
        Err(f) => Err(f),
        Ok(v) => match v {
            DynamicValue::Container(inner) => Ok(inner@),
            _ => Err(cannot_convert(v.kind_name(), "container"@)),
        },
    }
}

/// The value under the tag, read as a truth value.
pub open spec fn truth_at(items: Seq<TaggedItem>, tag: u32) -> Result<bool, Failure> {
    match value_at(items, tag) {
        Err(f) => Err(f),
        Ok(v) => v.as_truth(),
    }
}

/// The value under the tag, read as a binary64.
pub open spec fn number_at(items: Seq<TaggedItem>, tag: u32) -> Result<Float64, Failure> {
    match value_at(items, tag) {
        Err(f) => Err(f),
        Ok(v) => v.as_number(),
    }
}

/// The value under the tag, read as an unsigned integer.
pub open spec fn unsigned_at(items: Seq<TaggedItem>, tag: u32) -> Result<u64, Failure> {
    match value_at(items, tag) {
        Err(f) => Err(f),
        Ok(v) => v.as_unsigned(),
    }
}

/// The value under the tag, read as text.
pub open spec fn text_at(items: Seq<TaggedItem>, tag: u32) -> Result<Seq<char>, Failure> {
    match value_at(items, tag) {
        Err(f) => Err(f),
        Ok(v) => v.as_text(),
    }
}

/// The value under the tag reads as the binary64 `v`.
pub open spec fn reads_number(items: Seq<TaggedItem>, tag: u32, v: Float64) -> bool {
    number_at(items, tag) == Ok::<Float64, Failure>(v)
}

/// The value under the tag reads as the unsigned integer `v`.
pub open spec fn reads_unsigned(items: Seq<TaggedItem>, tag: u32, v: u64) -> bool {
    unsigned_at(items, tag) == Ok::<u64, Failure>(v)
}

/// The value under the tag reads as the truth value `v`.
pub open spec fn reads_truth(items: Seq<TaggedItem>, tag: u32, v: bool) -> bool {
    truth_at(items, tag) == Ok::<bool, Failure>(v)
}

/// The value under the tag reads as the text `v`.
pub open spec fn reads_text(items: Seq<TaggedItem>, tag: u32, v: Seq<char>) -> bool {
    text_at(items, tag) == Ok::<Seq<char>, Failure>(v)
}

/// The outcome of a lookup that hands out a part of the list itself.
pub open spec fn finds<T>(r: Result<&T, E3dcError>, expected: Result<T, Failure>) -> bool {
    match expected {
        Ok(v) => r matches Ok(got) && *got == v,
        Err(f) => r matches Err(e) && e@ == f,
    }
}

/// The outcome of a lookup that hands out a list of children.
pub open spec fn finds_children(
    r: Result<&[TaggedItem], E3dcError>,
    expected: Result<Seq<TaggedItem>, Failure>,
) -> bool {
    match expected {
        Ok(v) => r matches Ok(got) && got@ == v,
        Err(f) => r matches Err(e) && e@ == f,
    }
}

/// The items inside a value.
pub fn any_to_items<'a>(data: &'a Option<DynamicValue>) -> (r: &'a [TaggedItem])
    ensures
        r@ == children_of(*data),
{
    match data {
        Some(DynamicValue::Container(items)) => items.as_slice(),
        _ => &[],
    }
}

/// The first item with the tag.
pub fn find_item<'a>(items: &'a [TaggedItem], tag: u32) -> (r: Result<
    &'a TaggedItem,
    E3dcError,
>)
    ensures
        finds(r, item_at(items@, tag)),
{
    let mut i: usize = 0;
    while i < items.len()
        invariant
            i <= items.len(),
            forall|j: int| 0 <= j < i ==> (#[trigger] items@[j]).tag != tag,
        decreases items.len() - i,
    {
        if items[i].tag == tag {
            proof {
                lemma_first_is_unique(items@, tag, i as int);
            }
            return Ok(&items[i]);
        }
        i += 1;
    }
    Err(E3dcError::MissingTag(tag))
}

/// The value of the first item with the tag.
pub fn find_item_data<'a>(items: &'a [TaggedItem], tag: u32) -> (r: Result<
    &'a DynamicValue,
    E3dcError,
>)
    ensures
        finds(r, value_at(items@, tag)),
{
    match find_item(items, tag) {
        Err(e) => Err(e),
        Ok(item) => match &item.value {
            Some(v) => Ok(v),
            None => Err(E3dcError::MissingData(tag)),
        },
    }
}

/// The children of the first item with the tag.
pub fn get_items<'a>(items: &'a [TaggedItem], tag: u32) -> (r: Result<
    &'a [TaggedItem],
    E3dcError,
>)
    ensures
        finds_children(r, children_at(items@, tag)),
{
    match find_item(items, tag) {
        Err(e) => Err(e),
        Ok(item) => Ok(any_to_items(&item.value)),
    }
}

/// The items of the container under the tag.
pub fn get_container<'a>(items: &'a [TaggedItem], tag: u32) -> (r: Result<
    &'a [TaggedItem],
    E3dcError,
>)
    ensures
        finds_children(r, container_at(items@, tag)),
{
    match find_item_data(items, tag) {
        Err(e) => Err(e),
        Ok(v) => match v {
            DynamicValue::Container(inner) => Ok(inner.as_slice()),
            _ => Err(v.no_conversion("container")),
        },
    }
}

/// The value under the tag as a truth value.
pub fn get_bool(items: &[TaggedItem], tag: u32) -> (r: Result<bool, E3dcError>)
    ensures
        agrees(r, truth_at(items@, tag)),
{
    match find_item_data(items, tag) {
        Err(e) => Err(e),
        Ok(v) => any_to_bool(v),
    }
}

/// The value under the tag as a binary64.
pub fn get_number(items: &[TaggedItem], tag: u32) -> (r: Result<Float64, E3dcError>)
    ensures
        agrees(r, number_at(items@, tag)),
{
    match find_item_data(items, tag) {
        Err(e) => Err(e),
        Ok(v) => any_to_f64(v),
    }
}

/// The value under the tag as an unsigned integer.
pub fn get_integer(items: &[TaggedItem], tag: u32) -> (r: Result<u64, E3dcError>)
    ensures
        agrees(r, unsigned_at(items@, tag)),
{
    match find_item_data(items, tag) {
        Err(e) => Err(e),
        Ok(v) => any_to_u64(v),
    }
}

/// The value under the tag as text.
pub fn get_string(items: &[TaggedItem], tag: u32) -> (r: Result<String, E3dcError>)
    ensures
        agrees(r, text_at(items@, tag)),
{
    match find_item_data(items, tag) {
        Err(e) => Err(e),
        Ok(v) => any_to_string(v),
    }
}

} // verus!
