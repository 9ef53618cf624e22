//! Binding of a query string (`key=value` items joined by `&`) onto the
//! fields of a schema.

use vstd::prelude::*;
use crate::error::{ValidationError, not_a_number};
use crate::external::{url_decode, url_decoded};
use crate::latitude::{Latitude, latitude_of, latitude_result_view};
use crate::location::{ByBbox, Location, location_of};
use crate::text::{find_first, first_of, same_text, split, split_on};

verus! {

/// Why a query string could not be bound onto a schema.
#[derive(Debug, PartialEq)]
pub enum FormError {
    /// An item of the query has no `=`.
    Malformed,
    /// A key that names no field of the schema.
    UnknownField(String),
    /// A field of the schema that no key names.
    MissingField(String),
    /// A text field whose value does not URL-decode.
    Undecodable(String),
    /// A field whose value failed to parse, under the fail-fast policy.
    Invalid(ValidationError),
}

/// A `FormError` with its texts as character sequences.
pub enum FormErrorView {
    Malformed,
    UnknownField(Seq<char>),
    MissingField(Seq<char>),
    Undecodable(Seq<char>),
    Invalid(Seq<char>),
}

impl View for FormError {
    type V = FormErrorView;

    open spec fn view(&self) -> FormErrorView {
        match self {
            FormError::Malformed => FormErrorView::Malformed,
            FormError::UnknownField(k) => FormErrorView::UnknownField(k@),
            FormError::MissingField(k) => FormErrorView::MissingField(k@),
            FormError::Undecodable(k) => FormErrorView::Undecodable(k@),
            FormError::Invalid(e) => FormErrorView::Invalid(e.reason@),
        }
    }
}

/// Whether an item holds a `=`.
pub open spec fn has_eq(item: Seq<char>) -> bool {
    first_of(item, '=', '=') < item.len()
}

/// An item split at its first `=` into key and value.
pub open spec fn item_of(item: Seq<char>) -> (Seq<char>, Seq<char>) {
    let k = first_of(item, '=', '=');
    (item.take(k), item.skip(k + 1))
}

/// Whether every `&`-separated item of `q` holds a `=`.
pub open spec fn well_formed_query(q: Seq<char>) -> bool {
    let ps = split_on(q, '&');
    forall|i: int| 0 <= i < ps.len() ==> has_eq(#[trigger] ps[i])
}

/// The key/value items of `q`, in order.
pub open spec fn items_of(q: Seq<char>) -> Seq<(Seq<char>, Seq<char>)> {
    split_on(q, '&').map_values(|p: Seq<char>| item_of(p))
}

pub open spec fn items_view(v: Seq<(&str, &str)>) -> Seq<(Seq<char>, Seq<char>)> {
    v.map_values(|p: (&str, &str)| (p.0@, p.1@))
}

/// The value of the last item whose key is `key`.
pub open spec fn value_for(items: Seq<(Seq<char>, Seq<char>)>, key: Seq<char>) -> Option<Seq<char>>
    decreases items.len(),
{
    if items.len() == 0 {
        None
    } else if items.last().0 == key {
        Some(items.last().1)
    } else {
        value_for(items.drop_last(), key)
    }
}

/// The first key that is neither `a` nor `b`.
pub open spec fn unknown_key(items: Seq<(Seq<char>, Seq<char>)>, a: Seq<char>, b: Seq<char>) -> Option<
    Seq<char>,
>
    decreases items.len(),
{
    if items.len() == 0 {
        None
    } else {
        match unknown_key(items.drop_last(), a, b) {
            Some(k) => Some(k),
            None => if items.last().0 != a && items.last().0 != b {
                Some(items.last().0)
            } else {
                None
            },
        }
    }
}

/// Splits a query string into its items; `None` when an item has no `=`.
pub fn form_items<'a>(q: &'a str) -> (r: Option<Vec<(&'a str, &'a str)>>)
    ensures
        r is None <==> !well_formed_query(q@),
        r matches Some(v) ==> items_view(v@) == items_of(q@),
{
    let pieces = split(q, '&');
    let ghost ps = split_on(q@, '&');
    assert(pieces@.map_values(|p: &str| p@).len() == ps.len());
    let mut items: Vec<(&'a str, &'a str)> = Vec::new();
    let mut i: usize = 0;
    while i < pieces.len()
        invariant
            pieces@.map_values(|p: &str| p@) == ps,
            ps == split_on(q@, '&'),
            i <= pieces.len() == ps.len(),
            items_view(items@) == ps.take(i as int).map_values(|p: Seq<char>| item_of(p)),
            forall|j: int| 0 <= j < i ==> has_eq(#[trigger] ps[j]),
        decreases pieces.len() - i,
    {
        let piece = pieces[i];
        assert(piece@ == ps[i as int]) by {
            assert(pieces@.map_values(|p: &str| p@)[i as int] == ps[i as int]);
        }
        let n = piece.unicode_len();
        let k = find_first(piece, '=', '=');
        if k == n {
            assert(!has_eq(ps[i as int]));
            return None;
        }
        let key = piece.substring_char(0, k);
        let value = piece.substring_char(k + 1, n);
        let ghost before = items_view(items@);
        items.push((key, value));
        assert(items_view(items@) =~= before.push(item_of(piece@)));
        assert(ps.take(i + 1).map_values(|p: Seq<char>| item_of(p)) =~= ps.take(i as int).map_values(
            |p: Seq<char>| item_of(p),
        ).push(item_of(ps[i as int])));
        i = i + 1;
    }
    assert(ps.take(i as int) =~= ps);
    Some(items)
}

/// The value of the last item whose key is `key`.
pub fn find_value<'a>(items: &Vec<(&'a str, &'a str)>, key: &str) -> (r: Option<&'a str>)
    ensures
        r matches Some(v) ==> value_for(items_view(items@), key@) == Some(v@),
        r is None ==> value_for(items_view(items@), key@) is None,
{
    let ghost all = items_view(items@);
    let mut found: Option<&'a str> = None;
    let mut i: usize = 0;
    while i < items.len()
        invariant
            all == items_view(items@),
            i <= items.len(),
            found matches Some(v) ==> value_for(all.take(i as int), key@) == Some(v@),
            found is None ==> value_for(all.take(i as int), key@) is None,
        decreases items.len() - i,
    {
        assert(all.take(i + 1).drop_last() =~= all.take(i as int));
        assert(all[i as int] == (items@[i as int].0@, items@[i as int].1@));
        if same_text(items[i].0, key) {
            found = Some(items[i].1);
        }
        i = i + 1;
    }
    assert(all.take(i as int) =~= all);
    found
}

/// The first key that is neither `a` nor `b`.
pub fn find_unknown<'a>(items: &Vec<(&'a str, &'a str)>, a: &str, b: &str) -> (r: Option<&'a str>)
    ensures
        r matches Some(k) ==> unknown_key(items_view(items@), a@, b@) == Some(k@),
        r is None ==> unknown_key(items_view(items@), a@, b@) is None,
{
    let ghost all = items_view(items@);
    let mut i: usize = 0;
    while i < items.len()
        invariant
            all == items_view(items@),
            i <= items.len(),
            unknown_key(all.take(i as int), a@, b@) is None,
        decreases items.len() - i,
    {
        assert(all.take(i + 1).drop_last() =~= all.take(i as int));
        assert(all[i as int] == (items@[i as int].0@, items@[i as int].1@));
        let key = items[i].0;
        if !same_text(key, a) && !same_text(key, b) {
            proof {
                lemma_unknown_key_extend(all, a@, b@, i + 1);
            }
            return Some(key);
        }
        i = i + 1;
    }
    assert(all.take(i as int) =~= all);
    None
}

/// Once a prefix holds an unknown key, every longer prefix reports that same key.
proof fn lemma_unknown_key_extend(items: Seq<(Seq<char>, Seq<char>)>, a: Seq<char>, b: Seq<char>, k: int)
    requires
        0 <= k <= items.len(),
        unknown_key(items.take(k), a, b) is Some,
    ensures
        unknown_key(items, a, b) == unknown_key(items.take(k), a, b),
    decreases items.len() - k,
{
    if k < items.len() {
        assert(items.take(k + 1).drop_last() =~= items.take(k));
        lemma_unknown_key_extend(items, a, b, k + 1);
    } else {
        assert(items.take(k) =~= items);
    }
}

/// A name and a latitude. The latitude is bound under the deferred-failure
/// policy: its own failure is held in the field and does not stop the
/// binding.
pub struct TestParams {
    pub name: String,
    pub lat: Result<Latitude, ValidationError>,
}

impl TestParams {
    pub open spec fn view_pair(&self) -> (Seq<char>, Result<int, Seq<char>>) {
        (self.name@, latitude_result_view(self.lat))
    }
}

/// What binding `q` onto `TestParams` gives: the decoded name and the
/// latitude's own outcome, or why the binding failed. Fields are taken in
/// the order `name`, `lat`; where a key repeats, its last value counts.
pub open spec fn test_params_of(q: Seq<char>) -> Result<(Seq<char>, Result<int, Seq<char>>), FormErrorView> {
    let items = items_of(q);
    if !well_formed_query(q) {
        Err(FormErrorView::Malformed)
    } else if let Some(k) = unknown_key(items, "name"@, "lat"@) {
        Err(FormErrorView::UnknownField(k))
    } else {
        match value_for(items, "name"@) {
            None => Err(FormErrorView::MissingField("name"@)),
            Some(nv) => match url_decoded(nv) {
                None => Err(FormErrorView::Undecodable("name"@)),
                Some(name) => match value_for(items, "lat"@) {
                    None => Err(FormErrorView::MissingField("lat"@)),
                    Some(lv) => Ok(
                        (
                            name,
                            match url_decoded(lv) {
                                Some(d) => latitude_of(d),
                                None => Err(not_a_number()),
                            },
                        ),
                    ),
                },
            },
        }
    }
}

/// What binding `q` onto `ByBbox` gives: both corners, or the first
/// failure in the order `ne`, `sw`. A corner that fails to parse fails the
/// whole binding.
pub open spec fn by_bbox_of(q: Seq<char>) -> Result<((Seq<char>, Seq<char>), (Seq<char>, Seq<char>)), FormErrorView> {
    let items = items_of(q);
    if !well_formed_query(q) {
        Err(FormErrorView::Malformed)
    } else if let Some(k) = unknown_key(items, "ne"@, "sw"@) {
        Err(FormErrorView::UnknownField(k))
    } else {
        match value_for(items, "ne"@) {
            None => Err(FormErrorView::MissingField("ne"@)),
            Some(nv) => match location_of(nv) {
                None => Err(FormErrorView::Invalid(crate::error::location_failed())),
                Some(ne) => match value_for(items, "sw"@) {
                    None => Err(FormErrorView::MissingField("sw"@)),
                    Some(sv) => match location_of(sv) {
                        None => Err(FormErrorView::Invalid(crate::error::location_failed())),
                        Some(sw) => Ok((ne, sw)),
                    },
                },
            },
        }
    }
}

/// Under the deferred-failure policy the latitude's outcome, whatever it is,
/// never fails the binding: a well-formed query with exactly the known keys,
/// both present and the name decodable, always binds.
pub proof fn lemma_deferred_field_never_fails_binding(q: Seq<char>)
    requires
        well_formed_query(q),
        unknown_key(items_of(q), "name"@, "lat"@) is None,
        value_for(items_of(q), "name"@) matches Some(nv) && url_decoded(nv) is Some,
        value_for(items_of(q), "lat"@) is Some,
    ensures
        test_params_of(q) is Ok,
{
}

/// Under the fail-fast policy a corner that does not parse fails the whole
/// box, whatever the other corner holds.
pub proof fn lemma_bad_corner_fails_box(q: Seq<char>)
    requires
        (value_for(items_of(q), "ne"@) matches Some(v) && location_of(v) is None) || (value_for(
            items_of(q),
            "sw"@,
        ) matches Some(v) && location_of(v) is None),
    ensures
        by_bbox_of(q) is Err,
{
}

impl TestParams {
    /// Binds a query string such as `name=Alice&lat=45`.
    pub fn from_query(q: &str) -> (r: Result<TestParams, FormError>)
        ensures
            match r {
                Ok(p) => test_params_of(q@) == Ok::<_, FormErrorView>(p.view_pair()),
                Err(e) => test_params_of(q@) == Err::<(Seq<char>, Result<int, Seq<char>>), _>(e@),
            },
    {
        let items = match form_items(q) {
            None => return Err(FormError::Malformed),
            Some(items) => items,
        };
        if let Some(k) = find_unknown(&items, "name", "lat") {
            return Err(FormError::UnknownField(String::from_str(k)));
        }
        let name = match find_value(&items, "name") {
            None => return Err(FormError::MissingField(String::from_str("name"))),
            Some(v) => match url_decode(v) {
                Ok(d) => d,
                Err(_) => return Err(FormError::Undecodable(String::from_str("name"))),
            },
        };
        let lat = match find_value(&items, "lat") {
            None => return Err(FormError::MissingField(String::from_str("lat"))),
            Some(v) => Latitude::from_form_value(v),
        };
        Ok(TestParams { name, lat })
    }
}

impl ByBbox {
    pub open spec fn view_pair(&self) -> ((Seq<char>, Seq<char>), (Seq<char>, Seq<char>)) {
        (self.ne.view_pair(), self.sw.view_pair())
    }

    /// Binds a query string such as `ne=12.5,45.0&sw=10.0,40.0`.
    pub fn from_query(q: &str) -> (r: Result<ByBbox, FormError>)
        ensures
            match r {
                Ok(b) => by_bbox_of(q@) == Ok::<_, FormErrorView>(b.view_pair()),
                Err(e) => by_bbox_of(q@) == Err::<((Seq<char>, Seq<char>), (Seq<char>, Seq<char>)), _>(e@),
            },
    {
        let items = match form_items(q) {
            None => return Err(FormError::Malformed),
            Some(items) => items,
        };
        if let Some(k) = find_unknown(&items, "ne", "sw") {
            return Err(FormError::UnknownField(String::from_str(k)));
        }
        let ne = match find_value(&items, "ne") {
            None => return Err(FormError::MissingField(String::from_str("ne"))),
            Some(v) => match Location::from_form_value(v) {
                Ok(l) => l,
                Err(e) => return Err(FormError::Invalid(e)),
            },
        };
        let sw = match find_value(&items, "sw") {
            None => return Err(FormError::MissingField(String::from_str("sw"))),
            Some(v) => match Location::from_form_value(v) {
                Ok(l) => l,
                Err(e) => return Err(FormError::Invalid(e)),
            },
        };
        Ok(ByBbox { ne, sw })
    }
}

} // verus!
