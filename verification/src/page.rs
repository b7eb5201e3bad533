//! Pages of the delta listing: how an item and a page are read from JSON.

use crate::item::{
    views, Exists, HashView, Item, ItemType, ItemTypeView, ItemView, Parent, ParentView,
};
use crate::json::{
    json_value, lookup, lookup_optional_text, lookup_text, member, optional_text_member,
    parse_json, text_member, Json,
};
use vstd::prelude::*;

verus! {

/// Where a page leads: to the next page, or to the address from which the
/// next synchronisation resumes.
#[derive(Debug, Clone, PartialEq)]
pub enum SyncLink {
    More(String),
    Done(String),
}

/// A `SyncLink` as the contracts see it.
pub enum SyncLinkView {
    More(Seq<char>),
    Done(Seq<char>),
}

impl View for SyncLink {
    type V = SyncLinkView;

    open spec fn view(&self) -> SyncLinkView {
        match *self {
            SyncLink::More(s) => SyncLinkView::More(s@),
            SyncLink::Done(s) => SyncLinkView::Done(s@),
        }
    }
}

/// One answer of the server: a batch of items and a link.
#[derive(Debug, Clone)]
pub struct SyncPage {
    pub value: Vec<Item>,
    pub link: SyncLink,
}

/// A `SyncPage` as the contracts see it.
pub struct SyncPageView {
    pub value: Seq<ItemView>,
    pub link: SyncLinkView,
}

impl View for SyncPage {
    type V = SyncPageView;

    open spec fn view(&self) -> SyncPageView {
        SyncPageView { value: views(self.value@), link: self.link@ }
    }
}

/// The hashes that the object `json` gives: `sha1Hash` and `quickXorHash`,
/// each a string, `null` or missing.
pub open spec fn hash_of(json: Json) -> Option<HashView> {
    match json {
        Json::Object(m) => match (
            optional_text_member(m@, "sha1Hash"@),
            optional_text_member(m@, "quickXorHash"@),
        ) {
            (Some(sha), Some(xor)) => Some(HashView { sha, xor }),
            _ => None,
        },
        _ => None,
    }
}

/// The parent that the object `json` gives: `driveType`, a string, and
/// `path`, a string, `null` or missing.
pub open spec fn parent_of(json: Json) -> Option<ParentView> {
    match json {
        Json::Object(m) => match (
            optional_text_member(m@, "path"@),
            text_member(m@, "driveType"@),
        ) {
            (Some(path), Some(drive_type)) => Some(ParentView { path, drive_type }),
            _ => None,
        },
        _ => None,
    }
}

/// What the value of `file` says: an object, whose `hashes` are an object,
/// `null` or missing.
pub open spec fn file_of(json: Json) -> Option<ItemTypeView> {
    match json {
        Json::Object(m) => match member(m@, "hashes"@) {
            None => Some(ItemTypeView::File { hashes: None }),
            Some(Json::Null) => Some(ItemTypeView::File { hashes: None }),
            Some(h) => match hash_of(h) {
                Some(hashes) => Some(ItemTypeView::File { hashes: Some(hashes) }),
                None => None,
            },
        },
        _ => None,
    }
}

/// The kind of an item: exactly one of `file`, `folder` and `package` is
/// among its members, and its value is an object.
pub open spec fn kind_of(members: Seq<(String, Json)>) -> Option<ItemTypeView> {
    match (member(members, "file"@), member(members, "folder"@), member(members, "package"@)) {
        (Some(f), None, None) => file_of(f),
        (None, Some(Json::Object(_)), None) => Some(ItemTypeView::Folder),
        (None, None, Some(Json::Object(_))) => Some(ItemTypeView::Package),
        _ => None,
    }
}

/// The size of an item: 0 where `size` is missing, else its value.
pub open spec fn size_of(members: Seq<(String, Json)>) -> Option<u64> {
    match member(members, "size"@) {
        None => Some(0),
        Some(Json::Number(Some(n))) => Some(n),
        _ => None,
    }
}

/// Whether an item is a tombstone: `deleted` is an object. It is none
/// where `deleted` is missing or `null`.
pub open spec fn deleted_of(members: Seq<(String, Json)>) -> Option<bool> {
    match member(members, "deleted"@) {
        None => Some(false),
        Some(Json::Null) => Some(false),
        Some(Json::Object(_)) => Some(true),
        _ => None,
    }
}

/// The item that `json` describes; `None` where it describes none.
pub open spec fn item_of(json: Json) -> Option<ItemView> {
    match json {
        Json::Object(m) => match (
            text_member(m@, "id"@),
            text_member(m@, "name"@),
            size_of(m@),
            member(m@, "parentReference"@),
            kind_of(m@),
            deleted_of(m@),
        ) {
            (Some(id), Some(name), Some(size), Some(p), Some(item_type), Some(deleted)) => match parent_of(
                p,
            ) {
                Some(parent) => Some(ItemView { id, name, size, parent, item_type, deleted }),
                None => None,
            },
            _ => None,
        },
        _ => None,
    }
}

/// The items that the elements of an array describe, in their order;
/// `None` where one of them describes none.
pub open spec fn items_of(elements: Seq<Json>) -> Option<Seq<ItemView>>
    decreases elements.len(),
{
    if elements.len() == 0 {
        Some(Seq::empty())
    } else {
        match (items_of(elements.drop_last()), item_of(elements.last())) {
            (Some(front), Some(item)) => Some(front.push(item)),
            _ => None,
        }
    }
}

/// The link of a page: exactly one of `@odata.nextLink` and
/// `@odata.deltaLink` is among its members, and is a string.
pub open spec fn link_of(members: Seq<(String, Json)>) -> Option<SyncLinkView> {
    match (member(members, "@odata.nextLink"@), member(members, "@odata.deltaLink"@)) {
        (Some(Json::Text(s)), None) => Some(SyncLinkView::More(s@)),
        (None, Some(Json::Text(s))) => Some(SyncLinkView::Done(s@)),
        _ => None,
    }
}

/// The page that `json` describes: the items of the array `value`, and the
/// link.
pub open spec fn page_of(json: Json) -> Option<SyncPageView> {
    match json {
        Json::Object(m) => match (member(m@, "value"@), link_of(m@)) {
            (Some(Json::Array(elements)), Some(link)) => match items_of(elements@) {
                Some(value) => Some(SyncPageView { value, link }),
                None => None,
            },
            _ => None,
        },
        _ => None,
    }
}

fn decode_hash(json: &Json) -> (r: Option<crate::item::Hash>)
    ensures
        match r {
            Some(h) => hash_of(*json) == Some(h@),
            None => hash_of(*json) is None,
        },
{
    match json {
        Json::Object(m) => {
            let sha = lookup_optional_text(m, "sha1Hash");
            let xor = lookup_optional_text(m, "quickXorHash");
            match (sha, xor) {
                (Some(sha), Some(xor)) => Some(crate::item::Hash { sha, xor }),
                _ => None,
            }
        },
        _ => None,
    }
}

fn decode_parent(json: &Json) -> (r: Option<Parent>)
    ensures
        match r {
            Some(p) => parent_of(*json) == Some(p@),
            None => parent_of(*json) is None,
        },
{
    match json {
        Json::Object(m) => {
            let path = lookup_optional_text(m, "path");
            let drive_type = lookup_text(m, "driveType");
            match (path, drive_type) {
                (Some(path), Some(drive_type)) => Some(Parent { path, drive_type }),
                _ => None,
            }
        },
        _ => None,
    }
}

fn decode_file(json: &Json) -> (r: Option<ItemType>)
    ensures
        match r {
            Some(t) => file_of(*json) == Some(t@),
            None => file_of(*json) is None,
        },
{
    match json {
        Json::Object(m) => match lookup(m, "hashes") {
            None => Some(ItemType::File { hashes: None }),
            Some(Json::Null) => Some(ItemType::File { hashes: None }),
            Some(h) => match decode_hash(h) {
                Some(hashes) => Some(ItemType::File { hashes: Some(hashes) }),
                None => None,
            },
        },
        _ => None,
    }
}

fn decode_kind(members: &Vec<(String, Json)>) -> (r: Option<ItemType>)
    ensures
        match r {
            Some(t) => kind_of(members@) == Some(t@),
            None => kind_of(members@) is None,
        },
{
    let file = lookup(members, "file");
    let folder = lookup(members, "folder");
    let package = lookup(members, "package");
    match (file, folder, package) {
        (Some(f), None, None) => decode_file(f),
        (None, Some(Json::Object(_)), None) => Some(ItemType::Folder {  }),
        (None, None, Some(Json::Object(_))) => Some(ItemType::Package {  }),
        _ => None,
    }
}

fn decode_size(members: &Vec<(String, Json)>) -> (r: Option<u64>)
    ensures
        r == size_of(members@),
{
    match lookup(members, "size") {
        None => Some(0),
        Some(Json::Number(Some(n))) => Some(*n),
        _ => None,
    }
}

fn decode_deleted(members: &Vec<(String, Json)>) -> (r: Option<Option<Exists>>)
    ensures
        match r {
            Some(d) => deleted_of(members@) == Some(d is Some),
            None => deleted_of(members@) is None,
        },
{
    match lookup(members, "deleted") {
        None => Some(None),
        Some(Json::Null) => Some(None),
        Some(Json::Object(_)) => Some(Some(Exists {  })),
        _ => None,
    }
}

/// Reads an item from a JSON document.
pub fn decode_item(json: &Json) -> (r: Option<Item>)
    ensures
        match r {
            Some(item) => item_of(*json) == Some(item@),
            None => item_of(*json) is None,
        },
{
    match json {
        Json::Object(m) => {
            let id = lookup_text(m, "id");
            let name = lookup_text(m, "name");
            let size = decode_size(m);
            let parent = match lookup(m, "parentReference") {
                Some(p) => decode_parent(p),
                None => None,
            };
            let item_type = decode_kind(m);
            let deleted = decode_deleted(m);
            match (id, name, size, parent, item_type, deleted) {
                (
                    Some(id),
                    Some(name),
                    Some(size),
                    Some(parent),
                    Some(item_type),
                    Some(deleted),
                ) => Some(Item { id, name, size, parent, item_type, deleted }),
                _ => None,
            }
        },
        _ => None,
    }
}

fn decode_link(members: &Vec<(String, Json)>) -> (r: Option<SyncLink>)
    ensures
        match r {
            Some(link) => link_of(members@) == Some(link@),
            None => link_of(members@) is None,
        },
{
    let next = lookup(members, "@odata.nextLink");
    let delta = lookup(members, "@odata.deltaLink");
    match (next, delta) {
        (Some(Json::Text(s)), None) => Some(SyncLink::More(s.clone())),
        (None, Some(Json::Text(s))) => Some(SyncLink::Done(s.clone())),
        _ => None,
    }
}

/// Reads the items of an array, in order; none where one element is no item.
pub fn decode_items(elements: &Vec<Json>) -> (r: Option<Vec<Item>>)
    ensures
        match r {
            Some(items) => items_of(elements@) == Some(views(items@)),
            None => items_of(elements@) is None,
        },
{
    let mut items: Vec<Item> = Vec::new();
    let mut i: usize = 0;
    assert(views(items@) =~= Seq::<ItemView>::empty());
    while i < elements.len()
        invariant
            i <= elements.len(),
            items_of(elements@.take(i as int)) == Some(views(items@)),
        decreases elements.len() - i,
    {
        proof {
            assert(elements@.take(i + 1).drop_last() =~= elements@.take(i as int));
            assert(elements@.take(i + 1).last() == elements@[i as int]);
        }
        match decode_item(&elements[i]) {
            Some(item) => {
                let ghost before = views(items@);
                items.push(item);
                assert(views(items@) =~= before.push(item@));
            },
            None => {
                proof {
                    lemma_items_of_prefix(elements@, i + 1);
                }
                return None;
            },
        }
        i += 1;
    }
    assert(elements@.take(i as int) =~= elements@);
    Some(items)
}

/// Where a front part of an array holds an element that is no item, so does
/// the array.
proof fn lemma_items_of_prefix(elements: Seq<Json>, n: int)
    requires
        0 <= n <= elements.len(),
        items_of(elements.take(n)) is None,
    ensures
        items_of(elements) is None,
    decreases elements.len() - n,
{
    if n < elements.len() {
        assert(elements.take(n + 1).drop_last() =~= elements.take(n));
        lemma_items_of_prefix(elements, n + 1);
    } else {
        assert(elements.take(n) =~= elements);
    }
}

/// Reads a page from a JSON document.
pub fn decode_page(json: &Json) -> (r: Option<SyncPage>)
    ensures
        match r {
            Some(page) => page_of(*json) == Some(page@),
            None => page_of(*json) is None,
        },
{
    match json {
        Json::Object(m) => {
            let link = decode_link(m);
            match (lookup(m, "value"), link) {
                (Some(Json::Array(elements)), Some(link)) => match decode_items(elements) {
                    Some(value) => Some(SyncPage { value, link }),
                    None => None,
                },
                _ => None,
            }
        },
        _ => None,
    }
}

/// The item that a text describes, by way of the JSON document that it
/// holds.
pub open spec fn item_of_text(text: Seq<char>) -> Option<ItemView> {
    match json_value(text) {
        Some(json) => item_of(json),
        None => None,
    }
}

/// The page that a text describes, by way of the JSON document that it
/// holds.
pub open spec fn page_of_text(text: Seq<char>) -> Option<SyncPageView> {
    match json_value(text) {
        Some(json) => page_of(json),
        None => None,
    }
}

/// Reads an item from a JSON text; none where the text is no JSON or
/// describes no item.
pub fn parse_item(text: &str) -> (r: Option<Item>)
    ensures
        match r {
            Some(item) => item_of_text(text@) == Some(item@),
            None => item_of_text(text@) is None,
        },
{
    match parse_json(text) {
        Some(json) => decode_item(&json),
        None => None,
    }
}

/// Reads a page from a JSON text; none where the text is no JSON or
/// describes no page.
pub fn parse_page(text: &str) -> (r: Option<SyncPage>)
    ensures
        match r {
            Some(page) => page_of_text(text@) == Some(page@),
            None => page_of_text(text@) is None,
        },
{
    match parse_json(text) {
        Some(json) => decode_page(&json),
        None => None,
    }
}

} // verus!
