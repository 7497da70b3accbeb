//! The monitor of a venue's catalog: the listings of the last day, the latest of them
//! to look products up in, and what changed between the oldest and the latest.

use crate::datasources::parse::{signalled, JsonReply};
use crate::json::{
    duplicate_members, find_member, is_plain, json_views, member_spec, member_views,
    render_spec, Json, JsonView, Member,
};
use crate::members::{
    ascending_keys, keyed_members, keyed_members_copy, lemma_keyed_members_ascending,
};
use crate::text::{
    lemma_text_lt_irreflexive, lemma_text_lt_total, lemma_text_lt_transitive, text_before,
    text_lt,
};
use vstd::prelude::*;
use vstd::string::StringExecFns;

verus! {

/// How long a listing is kept, in nanoseconds: twenty-four hours.
pub const RETENTION: u64 = 86_400_000_000_000;

/// How long the caller waits between two fetches of the catalog, in nanoseconds: one
/// hour.
pub const POLL_INTERVAL: u64 = 3_600_000_000_000;

/// What a [`Product`] stands for.
pub struct ProductView {
    pub id: Seq<char>,
    pub base_currency: Seq<char>,
    pub quote_currency: Seq<char>,
    pub display_name: Seq<char>,
    pub other: Seq<(Seq<char>, JsonView)>,
}

/// One product of the catalog. What the venue says of it beyond the four named fields
/// is kept as a mapping by key: no two members with one key, the keys ascending.
#[derive(Debug, PartialEq, Eq)]
pub struct Product {
    id: String,
    base_currency: String,
    quote_currency: String,
    display_name: String,
    other: Vec<Member>,
}

impl View for Product {
    type V = ProductView;

    closed spec fn view(&self) -> ProductView {
        ProductView {
            id: self.id@,
            base_currency: self.base_currency@,
            quote_currency: self.quote_currency@,
            display_name: self.display_name@,
            other: member_views(self.other@),
        }
    }
}

/// What a listing stands for: the instant of its capture, and its products in the
/// ascending order of their ids, no two of them with one id.
pub struct SnapshotView {
    pub captured_at: nat,
    pub products: Seq<ProductView>,
}

/// One capture of the whole catalog.
#[derive(Debug, PartialEq, Eq)]
pub struct Snapshot {
    captured_at: u64,
    products: Vec<Product>,
}

/// The views of a sequence of products, in the same order.
pub open spec fn product_views(products: Seq<Product>) -> Seq<ProductView> {
    products.map_values(|p: Product| p@)
}

impl View for Snapshot {
    type V = SnapshotView;

    closed spec fn view(&self) -> SnapshotView {
        SnapshotView {
            captured_at: self.captured_at as nat,
            products: product_views(self.products@),
        }
    }
}

/// The views of a sequence of listings, in the same order.
pub open spec fn snapshot_views(snapshots: Seq<Snapshot>) -> Seq<SnapshotView> {
    snapshots.map_values(|s: Snapshot| s@)
}

/// Whether `key` names one of the four fields that every product has.
pub open spec fn is_named_field(key: Seq<char>) -> bool {
    key == "id"@ || key == "base_currency"@ || key == "quote_currency"@ || key
        == "display_name"@
}

/// The members whose keys name none of the four fields, in their order.
pub open spec fn unnamed_members(members: Seq<(Seq<char>, JsonView)>) -> Seq<
    (Seq<char>, JsonView),
>
    decreases members.len(),
{
    if members.len() == 0 {
        Seq::empty()
    } else if is_named_field(members.last().0) {
        unnamed_members(members.drop_last())
    } else {
        unnamed_members(members.drop_last()).push(members.last())
    }
}

/// The product that a catalog entry describes: an object whose members `id`,
/// `base_currency`, `quote_currency` and `display_name` are strings. Its other members
/// are kept as a mapping by their keys. Every other entry describes none.
pub open spec fn product_of(entry: JsonView) -> Option<ProductView> {
    match entry {
        JsonView::Object(members) => match (
            find_member(members, "id"@),
            find_member(members, "base_currency"@),
            find_member(members, "quote_currency"@),
            find_member(members, "display_name"@),
        ) {
            (
                JsonView::Text(id),
                JsonView::Text(base_currency),
                JsonView::Text(quote_currency),
                JsonView::Text(display_name),
            ) => Some(
                ProductView {
                    id,
                    base_currency,
                    quote_currency,
                    display_name,
                    other: keyed_members(unnamed_members(members)),
                },
            ),
            _ => None,
        },
        _ => None,
    }
}

/// The products that the entries describe, in their order; an entry that describes
/// none is left out.
pub open spec fn described(entries: Seq<JsonView>) -> Seq<ProductView>
    decreases entries.len(),
{
    if entries.len() == 0 {
        Seq::empty()
    } else {
        match product_of(entries.last()) {
            Some(p) => described(entries.drop_last()).push(p),
            None => described(entries.drop_last()),
        }
    }
}

/// The place of the product with this id, the last one where several have it.
pub open spec fn position_of(products: Seq<ProductView>, id: Seq<char>) -> Option<int>
    decreases products.len(),
{
    if products.len() == 0 {
        None
    } else if products.last().id == id {
        Some(products.len() - 1)
    } else {
        position_of(products.drop_last(), id)
    }
}

/// The product with this id.
pub open spec fn find_product(products: Seq<ProductView>, id: Seq<char>) -> Option<ProductView> {
    match position_of(products, id) {
        Some(i) => Some(products[i]),
        None => None,
    }
}

/// Where a product with this id goes among products whose ids ascend: behind the last
/// one whose id comes before it, at the front where there is none.
pub open spec fn place_of(products: Seq<ProductView>, id: Seq<char>) -> int
    decreases products.len(),
{
    if products.len() == 0 || text_lt(products.last().id, id) {
        products.len() as int
    } else {
        place_of(products.drop_last(), id)
    }
}

/// The products with `p` among them: in the place of the product that has its id, and
/// where none has it, where its id goes in the order of texts.
pub open spec fn put(products: Seq<ProductView>, p: ProductView) -> Seq<ProductView> {
    match position_of(products, p.id) {
        Some(i) => products.update(i, p),
        None => products.insert(place_of(products, p.id), p),
    }
}

/// Whether the ids of the products ascend in the order of texts, each one coming
/// before the next.
pub open spec fn ascending_ids(products: Seq<ProductView>) -> bool {
    forall|i: int, j: int|
        0 <= i < j < products.len() ==> text_lt(
            (#[trigger] products[i]).id,
            (#[trigger] products[j]).id,
        )
}

/// Whether two listings hold the same products: each product of the one is a product
/// of the other.
pub open spec fn same_products(a: Seq<ProductView>, b: Seq<ProductView>) -> bool {
    &&& forall|i: int| 0 <= i < a.len() ==> b.contains(#[trigger] a[i])
    &&& forall|j: int| 0 <= j < b.len() ==> a.contains(#[trigger] b[j])
}

/// The products as a mapping by their ids: of several with one id the last is kept, and
/// the ids ascend in the order of texts.
pub open spec fn keyed(products: Seq<ProductView>) -> Seq<ProductView>
    decreases products.len(),
{
    if products.len() == 0 {
        products
    } else {
        put(keyed(products.drop_last()), products.last())
    }
}

/// Whether no two of the products have one id.
pub open spec fn distinct_ids(products: Seq<ProductView>) -> bool {
    forall|i: int, j: int|
        0 <= i < j < products.len() ==> (#[trigger] products[i]).id != (
        #[trigger] products[j]).id
}

/// The listings that are kept when a new one is captured at `now`: those captured no
/// more than [`RETENTION`] before it, in their order.
pub open spec fn retained(history: Seq<SnapshotView>, now: nat) -> Seq<SnapshotView>
    decreases history.len(),
{
    if history.len() == 0 {
        Seq::empty()
    } else if history.last().captured_at >= now - RETENTION {
        retained(history.drop_last(), now).push(history.last())
    } else {
        retained(history.drop_last(), now)
    }
}

/// The history after a capture at `now`: what is retained, then the new listing.
pub open spec fn recorded(history: Seq<SnapshotView>, now: nat, products: Seq<ProductView>) -> Seq<
    SnapshotView,
> {
    retained(history, now).push(SnapshotView { captured_at: now, products })
}

/// The entries of the catalog in a reply of the venue, or why there are none: the
/// fetch failed, the venue reports an error in a member `message`, or what it sent is
/// no array.
pub open spec fn catalog_spec(reply: Result<JsonView, Seq<char>>) -> Result<
    Seq<JsonView>,
    Seq<char>,
> {
    match reply {
        Err(message) => Err(message),
        Ok(doc) => {
            let signal = member_spec(doc, "message"@);
            if !(signal is Null) {
                Err("Coinbase monitor: "@ + render_spec(signal))
            } else {
                match doc {
                    JsonView::Array(entries) => Ok(entries),
                    _ => Err("Coinbase monitor: result is not array"@),
                }
            }
        },
    }
}

/// The view of a reply.
pub open spec fn reply_view(reply: JsonReply) -> Result<JsonView, Seq<char>> {
    match reply {
        Ok(doc) => Ok(doc@),
        Err(message) => Err(message@),
    }
}

/// The JSON value of a product: an object of the four named fields, then what else the
/// venue said of it.
pub open spec fn product_json(p: ProductView) -> JsonView {
    JsonView::Object(
        seq![
            ("id"@, JsonView::Text(p.id)),
            ("base_currency"@, JsonView::Text(p.base_currency)),
            ("quote_currency"@, JsonView::Text(p.quote_currency)),
            ("display_name"@, JsonView::Text(p.display_name)),
        ] + p.other,
    )
}

/// The JSON value of a listing: an object with one member for each product, its id
/// the key.
pub open spec fn listing_json(products: Seq<ProductView>) -> JsonView {
    JsonView::Object(products.map_values(|p: ProductView| (p.id, product_json(p))))
}

/// Whether `serde_json` reads a text as a JSON value.
pub uninterp spec fn json_reads(text: Seq<char>) -> bool;

/// What `json_structural_diff` reports of the difference between the JSON values that
/// two texts write; `None` where it finds none.
pub uninterp spec fn structural_diff(older: Seq<char>, newer: Seq<char>) -> Option<Seq<char>>;

/// Whether the difference of two texts can be asked for: `serde_json` reads both, and
/// both are the texts of plain values.
pub open spec fn diffable(older: Seq<char>, newer: Seq<char>) -> bool {
    &&& json_reads(older)
    &&& json_reads(newer)
    &&& exists|a: JsonView, b: JsonView|
        render_spec(a) == older && render_spec(b) == newer && is_plain(a) && is_plain(b)
}

/// Whether the oldest and the latest listing of `history` can be compared: there is no
/// listing, or their JSON texts are equal, or `serde_json` reads both texts and both
/// listings are plain values.
pub open spec fn comparable(history: Seq<SnapshotView>) -> bool {
    history.len() == 0 || {
        let older = listing_json(history.first().products);
        let newer = listing_json(history.last().products);
        render_spec(older) == render_spec(newer) || (is_plain(older) && is_plain(newer)
            && json_reads(render_spec(older)) && json_reads(render_spec(newer)))
    }
}

/// What `pretty_duration` writes for a span of so many nanoseconds.
pub uninterp spec fn pretty_duration_text(nanos: nat) -> Seq<char>;

/// How long before `now` the instant `then` was, in words; `[error]` where it was not
/// before.
pub open spec fn ago_spec(now: nat, then: nat) -> Seq<char> {
    if now >= then {
        pretty_duration_text((now - then) as nat)
    } else {
        "[error]"@
    }
}

/// A difference with the two ages below it: how long ago the latest listing was
/// captured, and how long ago the one that it is compared to.
pub open spec fn annotated_spec(diff: Seq<char>, updated: Seq<char>, compared: Seq<char>) -> Seq<
    char,
> {
    diff + "\nUpdated: "@ + updated + " ago\nComparing to: "@ + compared + " ago"@
}

/// The report of a difference `diff` at `now`, between a latest listing captured at
/// `newest` and an oldest one captured at `oldest`.
pub open spec fn report_spec(diff: Seq<char>, now: nat, newest: nat, oldest: nat) -> Seq<char> {
    annotated_spec(diff, ago_spec(now, newest), ago_spec(now, oldest))
}

/// What changed between the oldest and the latest listing of `history`, as reported at
/// `now`: nothing for an empty history and for two listings with the same JSON text,
/// as listings of the same products have; else what [`structural_diff`] finds between
/// the two texts.
pub open spec fn comparison_spec(history: Seq<SnapshotView>, now: nat) -> Option<Seq<char>> {
    if history.len() == 0 {
        None
    } else {
        let oldest = history.first();
        let newest = history.last();
        let older = render_spec(listing_json(oldest.products));
        let newer = render_spec(listing_json(newest.products));
        if older == newer {
            None
        } else {
            match structural_diff(older, newer) {
                Some(diff) => Some(
                    report_spec(diff, now, newest.captured_at, oldest.captured_at),
                ),
                None => None,
            }
        }
    }
}

/// What changed between the oldest and the latest listing of `history`, as reported
/// at the instant `now`.
pub open spec fn comparison_at(history: Seq<SnapshotView>, now: u64) -> Option<Seq<char>> {
    comparison_spec(history, now as nat)
}

/// The product that the latest listing of `history` has for `ticker` against the
/// dollar.
pub open spec fn query_spec(history: Seq<SnapshotView>, ticker: Seq<char>) -> Option<
    ProductView,
> {
    if history.len() == 0 {
        None
    } else {
        find_product(history.last().products, ticker + "-USD"@)
    }
}

/// The view of an optional product.
pub open spec fn product_option_view(p: Option<Product>) -> Option<ProductView> {
    match p {
        Some(p) => Some(p@),
        None => None,
    }
}

/// The view of an optional text.
pub open spec fn text_option_view(t: Option<String>) -> Option<Seq<char>> {
    match t {
        Some(t) => Some(t@),
        None => None,
    }
}

impl Product {
    #[verifier::type_invariant]
    spec fn keys_ascend(self) -> bool {
        ascending_keys(member_views(self.other@))
    }

    /// A product of these fields. Of `other`, the members that name none of the four
    /// fields are kept, as a mapping by their keys.
    pub fn new(
        id: String,
        base_currency: String,
        quote_currency: String,
        display_name: String,
        other: Vec<Member>,
    ) -> (r: Product)
        ensures
            r@ == (ProductView {
                id: id@,
                base_currency: base_currency@,
                quote_currency: quote_currency@,
                display_name: display_name@,
                other: keyed_members(unnamed_members(member_views(other@))),
            }),
    {
        let rest = unnamed(&other);
        proof {
            lemma_keyed_members_ascending(unnamed_members(member_views(other@)));
        }
        Product {
            id,
            base_currency,
            quote_currency,
            display_name,
            other: keyed_members_copy(&rest),
        }
    }

    /// The key of the product, a base and a quote currency with a hyphen between.
    pub fn id(&self) -> (r: &str)
        ensures
            r@ == self@.id,
    {
        self.id.as_str()
    }

    /// The currency that is traded.
    pub fn base_currency(&self) -> (r: &str)
        ensures
            r@ == self@.base_currency,
    {
        self.base_currency.as_str()
    }

    /// The currency that it is priced in.
    pub fn quote_currency(&self) -> (r: &str)
        ensures
            r@ == self@.quote_currency,
    {
        self.quote_currency.as_str()
    }

    /// The name that the venue shows.
    pub fn display_name(&self) -> (r: &str)
        ensures
            r@ == self@.display_name,
    {
        self.display_name.as_str()
    }

    /// What else the venue said of the product, in the ascending order of the keys.
    pub fn other(&self) -> (r: &Vec<Member>)
        ensures
            member_views(r@) == self@.other,
            ascending_keys(self@.other),
    {
        proof {
            use_type_invariant(self);
        }
        &self.other
    }

    /// A copy of this product.
    pub fn duplicate(&self) -> (r: Product)
        ensures
            r@ == self@,
    {
        proof {
            use_type_invariant(self);
        }
        Product {
            id: self.id.clone(),
            base_currency: self.base_currency.clone(),
            quote_currency: self.quote_currency.clone(),
            display_name: self.display_name.clone(),
            other: duplicate_members(&self.other),
        }
    }

    /// The product that a catalog entry describes, if it describes one.
    pub fn from_json(entry: &Json) -> (r: Option<Product>)
        ensures
            product_option_view(r) == product_of(entry@),
    {
        let members = match entry {
            Json::Object(members) => members,
            _ => {
                return None;
            },
        };
        let id = match entry.member("id").as_text() {
            Some(text) => String::from_str(text),
            None => {
                return None;
            },
        };
        let base_currency = match entry.member("base_currency").as_text() {
            Some(text) => String::from_str(text),
            None => {
                return None;
            },
        };
        let quote_currency = match entry.member("quote_currency").as_text() {
            Some(text) => String::from_str(text),
            None => {
                return None;
            },
        };
        let display_name = match entry.member("display_name").as_text() {
            Some(text) => String::from_str(text),
            None => {
                return None;
            },
        };
        let rest = unnamed(members);
        proof {
            lemma_keyed_members_ascending(unnamed_members(member_views(members@)));
        }
        Some(
            Product {
                id,
                base_currency,
                quote_currency,
                display_name,
                other: keyed_members_copy(&rest),
            },
        )
    }

    /// The JSON value of this product.
    pub fn to_json(&self) -> (r: Json)
        ensures
            r@ == product_json(self@),
    {
        let mut members: Vec<Member> = Vec::new();
        members.push(
            Member { key: String::from_str("id"), value: Json::Text(self.id.clone()) },
        );
        members.push(
            Member {
                key: String::from_str("base_currency"),
                value: Json::Text(self.base_currency.clone()),
            },
        );
        members.push(
            Member {
                key: String::from_str("quote_currency"),
                value: Json::Text(self.quote_currency.clone()),
            },
        );
        members.push(
            Member {
                key: String::from_str("display_name"),
                value: Json::Text(self.display_name.clone()),
            },
        );
        let ghost named = member_views(members@);
        let mut rest = duplicate_members(&self.other);
        let ghost others = member_views(rest@);
        members.append(&mut rest);
        proof {
            assert(member_views(members@) =~= named + others);
            assert(named =~= seq![
                ("id"@, JsonView::Text(self@.id)),
                ("base_currency"@, JsonView::Text(self@.base_currency)),
                ("quote_currency"@, JsonView::Text(self@.quote_currency)),
                ("display_name"@, JsonView::Text(self@.display_name)),
            ]);
        }
        Json::Object(members)
    }
}

/// Copies of the members whose keys name none of the four fields.
fn unnamed(members: &Vec<Member>) -> (r: Vec<Member>)
    ensures
        member_views(r@) == unnamed_members(member_views(members@)),
{
    let id = String::from_str("id");
    let base_currency = String::from_str("base_currency");
    let quote_currency = String::from_str("quote_currency");
    let display_name = String::from_str("display_name");
    let ghost all = member_views(members@);
    let mut r: Vec<Member> = Vec::new();
    let mut i: usize = 0;
    while i < members.len()
        invariant
            i <= members.len(),
            all == member_views(members@),
            id@ == "id"@,
            base_currency@ == "base_currency"@,
            quote_currency@ == "quote_currency"@,
            display_name@ == "display_name"@,
            member_views(r@) == unnamed_members(all.take(i as int)),
        decreases members.len() - i,
    {
        let m = &members[i];
        proof {
            assert(all.take(i + 1).drop_last() =~= all.take(i as int));
        }
        if !(m.key == id || m.key == base_currency || m.key == quote_currency || m.key
            == display_name) {
            r.push(Member { key: m.key.clone(), value: m.value.duplicate() });
        }
        i = i + 1;
    }
    assert(all.take(i as int) =~= all);
    r
}

/// The place of the product with this id.
fn position(products: &Vec<Product>, id: &String) -> (r: Option<usize>)
    ensures
        r is Some <==> position_of(product_views(products@), id@) is Some,
        r is Some ==> r->0 < products.len() && position_of(product_views(products@), id@)
            == Some(r->0 as int),
{
    let ghost all = product_views(products@);
    let mut i: usize = products.len();
    assert(all.take(i as int) =~= all);
    while i > 0
        invariant
            i <= products.len(),
            all == product_views(products@),
            position_of(all, id@) == position_of(all.take(i as int), id@),
        decreases i,
    {
        i = i - 1;
        assert(all.take(i + 1).drop_last() =~= all.take(i as int));
        if products[i].id == *id {
            return Some(i);
        }
    }
    None
}

/// Where a product with this id goes among the products.
fn place(products: &Vec<Product>, id: &String) -> (r: usize)
    ensures
        r == place_of(product_views(products@), id@),
        r <= products.len(),
{
    let ghost all = product_views(products@);
    let mut k: usize = products.len();
    assert(all.take(k as int) =~= all);
    while k > 0 && !text_before(products[k - 1].id.as_str(), id.as_str())
        invariant
            k <= products.len(),
            all == product_views(products@),
            place_of(all, id@) == place_of(all.take(k as int), id@),
        decreases k,
    {
        assert(all.take(k as int).drop_last() =~= all.take(k - 1));
        assert(all.take(k as int).last() == products@[k - 1]@);
        k = k - 1;
    }
    proof {
        if k > 0 {
            assert(all.take(k as int).last() == products@[k - 1]@);
        }
    }
    k
}

/// The products that the entries describe, keyed by their ids.
fn products_of(entries: &Vec<Json>) -> (r: Vec<Product>)
    ensures
        product_views(r@) == keyed(described(json_views(entries@))),
{
    let ghost all = json_views(entries@);
    let mut r: Vec<Product> = Vec::new();
    let ghost mut given: Seq<ProductView> = Seq::empty();
    let mut i: usize = 0;
    while i < entries.len()
        invariant
            i <= entries.len(),
            all == json_views(entries@),
            given == described(all.take(i as int)),
            product_views(r@) == keyed(given),
        decreases entries.len() - i,
    {
        proof {
            assert(all.take(i + 1).drop_last() =~= all.take(i as int));
        }
        match Product::from_json(&entries[i]) {
            Some(p) => {
                proof {
                    assert(given.push(p@).drop_last() =~= given);
                    given = given.push(p@);
                }
                match position(&r, &p.id) {
                    Some(at) => r.set(at, p),
                    None => {
                        let at = place(&r, &p.id);
                        r.insert(at, p);
                    },
                }
            },
            None => {},
        }
        i = i + 1;
    }
    assert(all.take(i as int) =~= all);
    r
}

/// Copies of the products, keyed by their ids.
fn keyed_copy(products: &Vec<Product>) -> (r: Vec<Product>)
    ensures
        product_views(r@) == keyed(product_views(products@)),
{
    let ghost all = product_views(products@);
    let mut r: Vec<Product> = Vec::new();
    let mut i: usize = 0;
    while i < products.len()
        invariant
            i <= products.len(),
            all == product_views(products@),
            product_views(r@) == keyed(all.take(i as int)),
        decreases products.len() - i,
    {
        let p = products[i].duplicate();
        proof {
            assert(all.take(i + 1).drop_last() =~= all.take(i as int));
        }
        match position(&r, &p.id) {
            Some(at) => r.set(at, p),
            None => {
                let at = place(&r, &p.id);
                r.insert(at, p);
            },
        }
        i = i + 1;
    }
    assert(all.take(i as int) =~= all);
    r
}

impl Snapshot {
    #[verifier::type_invariant]
    spec fn ids_ascend(self) -> bool {
        ascending_ids(product_views(self.products@))
    }

    /// A listing of these products, keyed by their ids, as captured at `captured_at`.
    pub fn new(captured_at: u64, products: &Vec<Product>) -> (r: Snapshot)
        ensures
            r@ == (SnapshotView {
                captured_at: captured_at as nat,
                products: keyed(product_views(products@)),
            }),
    {
        proof {
            lemma_keyed_ascending(product_views(products@));
        }
        Snapshot { captured_at, products: keyed_copy(products) }
    }

    /// The instant of the capture.
    pub fn captured_at(&self) -> (r: u64)
        ensures
            r == self@.captured_at,
    {
        self.captured_at
    }

    /// The products of the listing, in the ascending order of their ids.
    pub fn products(&self) -> (r: &Vec<Product>)
        ensures
            product_views(r@) == self@.products,
            ascending_ids(self@.products),
    {
        proof {
            use_type_invariant(self);
        }
        &self.products
    }
}

/// The JSON value of a listing.
fn listing_to_json(products: &Vec<Product>) -> (r: Json)
    ensures
        r@ == listing_json(product_views(products@)),
{
    let ghost all = product_views(products@);
    let ghost wanted = all.map_values(|p: ProductView| (p.id, product_json(p)));
    let mut members: Vec<Member> = Vec::new();
    let mut i: usize = 0;
    while i < products.len()
        invariant
            i <= products.len(),
            all == product_views(products@),
            wanted == all.map_values(|p: ProductView| (p.id, product_json(p))),
            member_views(members@) == wanted.take(i as int),
        decreases products.len() - i,
    {
        let p = &products[i];
        members.push(Member { key: p.id.clone(), value: p.to_json() });
        assert(wanted.take(i + 1) =~= wanted.take(i as int).push(wanted[i as int]));
        i = i + 1;
    }
    assert(wanted.take(i as int) =~= wanted);
    Json::Object(members)
}

/// The monitor of the catalog: the listings of the last day, the oldest first.
pub struct CoinbaseMonitor {
    data: Vec<Snapshot>,
}

impl View for CoinbaseMonitor {
    type V = Seq<SnapshotView>;

    closed spec fn view(&self) -> Seq<SnapshotView> {
        snapshot_views(self.data@)
    }
}

impl CoinbaseMonitor {
    /// A monitor without a listing.
    pub fn new() -> (r: CoinbaseMonitor)
        ensures
            r@ == Seq::<SnapshotView>::empty(),
    {
        CoinbaseMonitor { data: Vec::new() }
    }

    /// A monitor that keeps these listings, the oldest first.
    pub fn from_snapshots(data: Vec<Snapshot>) -> (r: CoinbaseMonitor)
        ensures
            r@ == snapshot_views(data@),
    {
        CoinbaseMonitor { data }
    }

    /// The address of the catalog.
    pub fn url() -> (r: String)
        ensures
            r@ == "https://api.exchange.coinbase.com/products"@,
    {
        String::from_str("https://api.exchange.coinbase.com/products")
    }

    /// The number of listings that are kept.
    pub fn len(&self) -> (r: usize)
        ensures
            r == self@.len(),
    {
        self.data.len()
    }

    /// The instant at which the listing at `index` was captured, the oldest listing
    /// at index zero.
    pub fn captured_at(&self, index: usize) -> (r: Option<u64>)
        ensures
            match r {
                Some(at) => index < self@.len() && at == self@[index as int].captured_at,
                None => index >= self@.len(),
            },
    {
        if index < self.data.len() {
            Some(self.data[index].captured_at)
        } else {
            None
        }
    }

    /// The entries of the catalog in a reply, or why there are none.
    pub fn query_products(reply: &JsonReply) -> (r: Result<&Vec<Json>, String>)
        ensures
            match catalog_spec(reply_view(*reply)) {
                Ok(entries) => r is Ok && json_views(r->Ok_0@) == entries,
                Err(message) => r is Err && r->Err_0@ == message,
            },
    {
        match reply {
            Err(message) => Err(message.clone()),
            Ok(doc) => {
                let signal = doc.member("message");
                if !signal.is_null() {
                    return Err(signalled("Coinbase monitor: ", signal));
                }
                match doc.as_array() {
                    Some(entries) => Ok(entries),
                    None => Err(String::from_str("Coinbase monitor: result is not array")),
                }
            },
        }
    }

    /// Takes in the reply to a fetch of the catalog that was made at `now`.
    ///
    /// A catalog becomes the latest listing, and the listings captured more than
    /// [`RETENTION`] before it are dropped. Anything else changes nothing, and its
    /// message is handed back.
    pub fn monitor(&mut self, now: u64, reply: &JsonReply) -> (r: Result<(), String>)
        ensures
            match catalog_spec(reply_view(*reply)) {
                Ok(entries) => r is Ok && final(self)@ == recorded(
                    old(self)@,
                    now as nat,
                    keyed(described(entries)),
                ),
                Err(message) => r is Err && r->Err_0@ == message && final(self)@ == old(self)@,
            },
    {
        let entries = match Self::query_products(reply) {
            Ok(entries) => entries,
            Err(message) => {
                return Err(message);
            },
        };
        let products = products_of(entries);
        let ghost before = self@;
        let mut i: usize = 0;
        let ghost mut seen: int = 0;
        while i < self.data.len()
            invariant
                0 <= seen <= before.len(),
                i <= self.data.len(),
                i == retained(before.take(seen), now as nat).len(),
                snapshot_views(self.data@) == retained(before.take(seen), now as nat)
                    + before.skip(seen),
            decreases before.len() - seen,
        {
            let ghost front = retained(before.take(seen), now as nat);
            proof {
                assert(snapshot_views(self.data@)[i as int] == before.skip(seen)[0]);
                assert(before.take(seen + 1).drop_last() =~= before.take(seen));
            }
            if now < RETENTION || self.data[i].captured_at >= now - RETENTION {
                i = i + 1;
            } else {
                let ghost whole = snapshot_views(self.data@);
                self.data.remove(i);
                proof {
                    assert(whole.remove(i as int) =~= front + before.skip(seen + 1));
                }
            }
            proof {
                seen = seen + 1;
            }
        }
        proof {
            assert(before.take(seen) =~= before);
        }
        proof {
            lemma_keyed_ascending(described(json_views(entries@)));
        }
        self.data.push(Snapshot { captured_at: now, products });
        Ok(())
    }

    /// The product that the latest listing has for `ticker` against the dollar.
    pub fn query(&self, ticker: &str) -> (r: Option<Product>)
        ensures
            product_option_view(r) == query_spec(self@, ticker@),
    {
        let n = self.data.len();
        if n == 0 {
            return None;
        }
        let mut id = String::from_str(ticker);
        id.append("-USD");
        let latest = &self.data[n - 1];
        match position(&latest.products, &id) {
            Some(at) => Some(latest.products[at].duplicate()),
            None => None,
        }
    }

    /// Whether the oldest and the latest listing can be compared.
    pub fn can_compare(&self) -> (r: bool)
        ensures
            r == comparable(self@),
            self@.len() > 0 && same_products(self@.first().products, self@.last().products)
                ==> r,
    {
        let n = self.data.len();
        if n == 0 {
            return true;
        }
        let oldest = &self.data[0];
        let newest = &self.data[n - 1];
        proof {
            use_type_invariant(oldest);
            use_type_invariant(newest);
            if same_products(oldest@.products, newest@.products) {
                lemma_same_products_same_listing(oldest@.products, newest@.products);
            }
        }
        let older = listing_to_json(&oldest.products);
        let newer = listing_to_json(&newest.products);
        let older_text = older.render();
        let newer_text = newer.render();
        if older_text == newer_text {
            return true;
        }
        older.plain() && newer.plain() && reads_as_json(older_text.as_str()) && reads_as_json(
            newer_text.as_str(),
        )
    }

    /// What changed between the oldest and the latest listing, as reported at `now`,
    /// with how long ago each of the two was captured.
    ///
    /// The two listings must be ones that can be compared; [`try_query_cmp`] asks for
    /// nothing and reports where they are not.
    ///
    /// [`try_query_cmp`]: CoinbaseMonitor::try_query_cmp
    pub fn query_cmp(&self, now: u64) -> (r: Option<String>)
        requires
            comparable(self@),
        ensures
            text_option_view(r) == comparison_at(self@, now),
            self@.len() > 0 && same_products(self@.first().products, self@.last().products)
                ==> r is None,
    {
        let n = self.data.len();
        if n == 0 {
            return None;
        }
        let oldest = &self.data[0];
        let newest = &self.data[n - 1];
        proof {
            use_type_invariant(oldest);
            use_type_invariant(newest);
            if same_products(oldest@.products, newest@.products) {
                lemma_same_products_same_listing(oldest@.products, newest@.products);
            }
        }
        let older = listing_to_json(&oldest.products);
        let newer = listing_to_json(&newest.products);
        let older_text = older.render();
        let newer_text = newer.render();
        if older_text == newer_text {
            return None;
        }
        assert(diffable(older_text@, newer_text@)) by {
            assert(render_spec(older@) == older_text@ && render_spec(newer@) == newer_text@
                && is_plain(older@) && is_plain(newer@));
        }
        match diff_json_texts(older_text.as_str(), newer_text.as_str()) {
            Some(diff) => {
                let updated = ago(now, newest.captured_at);
                let compared = ago(now, oldest.captured_at);
                Some(annotate(diff, updated.as_str(), compared.as_str()))
            },
            None => None,
        }
    }

    /// What changed between the oldest and the latest listing, as reported at `now`,
    /// or the report that the two cannot be compared.
    pub fn try_query_cmp(&self, now: u64) -> (r: Result<Option<String>, NotComparable>)
        ensures
            r is Ok <==> comparable(self@),
            r is Ok ==> text_option_view(r->Ok_0) == comparison_at(self@, now),
            self@.len() > 0 && same_products(self@.first().products, self@.last().products)
                ==> r == Ok::<Option<String>, NotComparable>(None),
    {
        if self.can_compare() {
            Ok(self.query_cmp(now))
        } else {
            Err(NotComparable)
        }
    }
}

/// A difference with the two ages below it.
pub fn annotate(diff: String, updated: &str, compared: &str) -> (r: String)
    ensures
        r@ == annotated_spec(diff@, updated@, compared@),
{
    let mut report = diff;
    report.append("\nUpdated: ");
    report.append(updated);
    report.append(" ago\nComparing to: ");
    report.append(compared);
    report.append(" ago");
    report
}

/// The oldest and the latest listing cannot be compared: one holds an array among the
/// elements of an array, or a number that is not written as one.
#[derive(Clone, Copy, Debug, PartialEq, Eq)]
pub struct NotComparable;

/// How long before `now` the instant `then` was, in words.
pub fn ago(now: u64, then: u64) -> (r: String)
    ensures
        r@ == ago_spec(now as nat, then as nat),
{
    if now >= then {
        pretty(now - then)
    } else {
        String::from_str("[error]")
    }
}

/// Two equal listings show no change, whenever each was captured and whenever the
/// question is asked.
pub proof fn lemma_same_listing_no_change(history: Seq<SnapshotView>, now: nat)
    requires
        history.len() > 0,
        history.first().products == history.last().products,
    ensures
        comparison_spec(history, now) is None,
        comparable(history),
{
}

/// A history of one listing shows no change.
pub proof fn lemma_single_listing_no_change(history: Seq<SnapshotView>, now: nat)
    requires
        history.len() == 1,
    ensures
        comparison_spec(history, now) is None,
{
}

/// A listing that is retained was captured no more than [`RETENTION`] before `now`,
/// and is one of the history.
pub proof fn lemma_retained_in_window(history: Seq<SnapshotView>, now: nat)
    ensures
        retained(history, now).len() <= history.len(),
        forall|i: int|
            0 <= i < retained(history, now).len() ==> (#[trigger] retained(
                history,
                now,
            )[i]).captured_at >= now - RETENTION && history.contains(retained(history, now)[i]),
    decreases history.len(),
{
    if history.len() > 0 {
        let front = history.drop_last();
        lemma_retained_in_window(front, now);
        assert forall|i: int| 0 <= i < retained(history, now).len() implies (#[trigger] retained(
            history,
            now,
        )[i]).captured_at >= now - RETENTION && history.contains(
            retained(history, now)[i],
        ) by {
            if i < retained(front, now).len() {
                let e = retained(front, now)[i];
                assert(front.contains(e));
                let k = choose|k: int| 0 <= k < front.len() && front[k] == e;
                assert(history[k] == e);
            } else {
                assert(history[history.len() - 1] == history.last());
            }
        }
    }
}

/// Every listing of the history that was captured no more than [`RETENTION`] before
/// `now` is retained.
pub proof fn lemma_window_is_retained(history: Seq<SnapshotView>, now: nat, k: int)
    requires
        0 <= k < history.len(),
        history[k].captured_at >= now - RETENTION,
    ensures
        retained(history, now).contains(history[k]),
    decreases history.len(),
{
    let front = history.drop_last();
    if k == history.len() - 1 {
        let r = retained(history, now);
        assert(r[r.len() - 1] == history[k]);
    } else {
        lemma_window_is_retained(front, now, k);
        let e = front[k];
        let j = choose|j: int| 0 <= j < retained(front, now).len() && retained(front, now)[j] == e;
        assert(retained(history, now)[j] == e);
    }
}

/// After a capture the history is never empty, its latest listing is the new one, and
/// every listing in it was captured no more than [`RETENTION`] before the new one.
pub proof fn lemma_recorded(history: Seq<SnapshotView>, now: nat, products: Seq<ProductView>)
    ensures
        recorded(history, now, products).len() >= 1,
        recorded(history, now, products).last() == (SnapshotView { captured_at: now, products }),
        forall|i: int|
            0 <= i < recorded(history, now, products).len() ==> (#[trigger] recorded(
                history,
                now,
                products,
            )[i]).captured_at >= now - RETENTION,
{
    lemma_retained_in_window(history, now);
}

/// Whether the listings stand in the order of their capture, the oldest first.
pub open spec fn in_order_of_capture(history: Seq<SnapshotView>) -> bool {
    forall|i: int, j: int|
        0 <= i <= j < history.len() ==> (#[trigger] history[i]).captured_at <= (
        #[trigger] history[j]).captured_at
}

/// What is retained of a history in the order of capture is in that order.
pub proof fn lemma_retained_in_order(history: Seq<SnapshotView>, now: nat)
    requires
        in_order_of_capture(history),
    ensures
        in_order_of_capture(retained(history, now)),
    decreases history.len(),
{
    if history.len() > 0 {
        let front = history.drop_last();
        let kept = retained(history, now);
        assert forall|i: int, j: int| 0 <= i <= j < front.len() implies (#[trigger] front[i]).captured_at
            <= (#[trigger] front[j]).captured_at by {
            assert(front[i] == history[i] && front[j] == history[j]);
        }
        lemma_retained_in_order(front, now);
        lemma_retained_in_window(front, now);
        assert forall|i: int, j: int| 0 <= i <= j < kept.len() implies (#[trigger] kept[i]).captured_at
            <= (#[trigger] kept[j]).captured_at by {
            if j < retained(front, now).len() {
                assert(kept[i] == retained(front, now)[i] && kept[j] == retained(front, now)[j]);
            } else if i < j {
                let e = retained(front, now)[i];
                assert(front.contains(e));
                let k = choose|k: int| 0 <= k < front.len() && front[k] == e;
                assert(history[k] == e);
                assert(kept[j] == history[history.len() - 1]);
            }
        }
    }
}

/// A history in the order of capture stays so by a capture that is not earlier than
/// its latest listing: the oldest listing is then the first and the latest the last.
pub proof fn lemma_recorded_in_order(
    history: Seq<SnapshotView>,
    now: nat,
    products: Seq<ProductView>,
)
    requires
        in_order_of_capture(history),
        history.len() > 0 ==> history.last().captured_at <= now,
    ensures
        in_order_of_capture(recorded(history, now, products)),
{
    let kept = retained(history, now);
    let after = recorded(history, now, products);
    lemma_retained_in_order(history, now);
    lemma_retained_in_window(history, now);
    assert forall|i: int, j: int| 0 <= i <= j < after.len() implies (#[trigger] after[i]).captured_at
        <= (#[trigger] after[j]).captured_at by {
        if j < kept.len() {
            assert(after[i] == kept[i] && after[j] == kept[j]);
        } else if i < j {
            let e = kept[i];
            assert(history.contains(e));
            let k = choose|k: int| 0 <= k < history.len() && history[k] == e;
            assert(history[k].captured_at <= history[history.len() - 1].captured_at);
        }
    }
}

/// Of three listings captured thirty hours, ten hours and one hour before a new one,
/// the first is dropped: the history is then the second, the third and the new one.
pub proof fn lemma_day_old_listing_leaves(
    first: SnapshotView,
    second: SnapshotView,
    third: SnapshotView,
    now: nat,
    products: Seq<ProductView>,
)
    requires
        first.captured_at + 30 * POLL_INTERVAL == now,
        second.captured_at + 10 * POLL_INTERVAL == now,
        third.captured_at + POLL_INTERVAL == now,
    ensures
        recorded(seq![first, second, third], now, products) == seq![
            second,
            third,
            SnapshotView { captured_at: now, products },
        ],
{
    let history = seq![first, second, third];
    let none = Seq::<SnapshotView>::empty();
    assert(seq![first].drop_last() =~= none);
    assert(seq![first, second].drop_last() =~= seq![first]);
    assert(history.drop_last() =~= seq![first, second]);
    assert(retained(none, now) =~= none);
    assert(retained(seq![first], now) =~= none);
    assert(retained(seq![first, second], now) =~= seq![second]);
}

/// A product of the latest listing is found by the part of its id before `-USD`,
/// where no two products of that listing have one id.
pub proof fn lemma_query_finds(history: Seq<SnapshotView>, ticker: Seq<char>, k: int)
    requires
        history.len() > 0,
        distinct_ids(history.last().products),
        0 <= k < history.last().products.len(),
        history.last().products[k].id == ticker + "-USD"@,
    ensures
        query_spec(history, ticker) == Some(history.last().products[k]),
{
    let products = history.last().products;
    lemma_position_of(products, ticker + "-USD"@);
    match position_of(products, ticker + "-USD"@) {
        Some(i) => {
            if i < k {
                assert(products[i].id != products[k].id);
            } else if k < i {
                assert(products[k].id != products[i].id);
            }
        },
        None => {
            assert(products[k].id != ticker + "-USD"@);
        },
    }
}

/// Where no product of the latest listing has the id, none is found.
pub proof fn lemma_query_misses(history: Seq<SnapshotView>, ticker: Seq<char>)
    requires
        history.len() == 0 || forall|j: int|
            0 <= j < history.last().products.len() ==> (#[trigger] history.last().products[j]).id
                != ticker + "-USD"@,
    ensures
        query_spec(history, ticker) is None,
{
    if history.len() > 0 {
        lemma_position_of(history.last().products, ticker + "-USD"@);
    }
}

/// What [`place_of`] gives: a place in the sequence, behind a product whose id comes
/// before the id and before all products whose ids do not.
pub proof fn lemma_place_of(products: Seq<ProductView>, id: Seq<char>)
    ensures
        0 <= place_of(products, id) <= products.len(),
        place_of(products, id) > 0 ==> text_lt(products[place_of(products, id) - 1].id, id),
        forall|j: int|
            place_of(products, id) <= j < products.len() ==> !text_lt(
                (#[trigger] products[j]).id,
                id,
            ),
    decreases products.len(),
{
    if products.len() == 0 || text_lt(products.last().id, id) {
    } else {
        let front = products.drop_last();
        lemma_place_of(front, id);
        assert forall|j: int| place_of(products, id) <= j < products.len() implies !text_lt(
            (#[trigger] products[j]).id,
            id,
        ) by {
            if j < front.len() {
                assert(products[j] == front[j]);
            }
        }
    }
}

/// Products whose ids ascend stay so when a product is put among them.
pub proof fn lemma_put_ascending(products: Seq<ProductView>, p: ProductView)
    requires
        ascending_ids(products),
    ensures
        ascending_ids(put(products, p)),
{
    let after = put(products, p);
    lemma_position_of(products, p.id);
    match position_of(products, p.id) {
        Some(at) => {
            assert forall|i: int, j: int| 0 <= i < j < after.len() implies text_lt(
                (#[trigger] after[i]).id,
                (#[trigger] after[j]).id,
            ) by {
                assert(after[i].id == products[i].id && after[j].id == products[j].id);
            }
        },
        None => {
            let k = place_of(products, p.id);
            lemma_place_of(products, p.id);
            assert forall|i: int, j: int| 0 <= i < j < after.len() implies text_lt(
                (#[trigger] after[i]).id,
                (#[trigger] after[j]).id,
            ) by {
                if j < k {
                    assert(after[i] == products[i] && after[j] == products[j]);
                } else if j == k {
                    assert(after[i] == products[i]);
                    if i < k - 1 {
                        lemma_text_lt_transitive(products[i].id, products[k - 1].id, p.id);
                    }
                } else if i == k {
                    assert(after[j] == products[j - 1]);
                    lemma_text_lt_total(p.id, products[j - 1].id);
                } else if i < k {
                    assert(after[i] == products[i] && after[j] == products[j - 1]);
                } else {
                    assert(after[i] == products[i - 1] && after[j] == products[j - 1]);
                }
            }
        },
    }
}

/// The ids of keyed products ascend.
pub proof fn lemma_keyed_ascending(products: Seq<ProductView>)
    ensures
        ascending_ids(keyed(products)),
    decreases products.len(),
{
    if products.len() > 0 {
        lemma_keyed_ascending(products.drop_last());
        lemma_put_ascending(keyed(products.drop_last()), products.last());
    }
}

/// Products whose ids ascend have distinct ids.
pub proof fn lemma_ascending_distinct(products: Seq<ProductView>)
    requires
        ascending_ids(products),
    ensures
        distinct_ids(products),
{
    assert forall|i: int, j: int| 0 <= i < j < products.len() implies (#[trigger] products[i]).id
        != (#[trigger] products[j]).id by {
        lemma_text_lt_irreflexive(products[i].id);
    }
}

/// Keyed products have distinct ids.
pub proof fn lemma_keyed_distinct(products: Seq<ProductView>)
    ensures
        distinct_ids(keyed(products)),
{
    lemma_keyed_ascending(products);
    lemma_ascending_distinct(keyed(products));
}

/// A listing is fixed by its products: two sequences of the same products, each with
/// ascending ids, are the same sequence.
pub proof fn lemma_same_products_same_listing(a: Seq<ProductView>, b: Seq<ProductView>)
    requires
        ascending_ids(a),
        ascending_ids(b),
        same_products(a, b),
    ensures
        a == b,
    decreases a.len(),
{
    if a.len() == 0 {
        if b.len() > 0 {
            assert(a.contains(b[0]));
        }
        assert(a =~= b);
    } else if b.len() == 0 {
        assert(b.contains(a[0]));
    } else {
        let m = a.len() - 1;
        let n = b.len() - 1;
        assert(b.contains(a[m]));
        assert(a.contains(b[n]));
        let j = choose|j: int| 0 <= j < b.len() && b[j] == a[m];
        let i = choose|i: int| 0 <= i < a.len() && a[i] == b[n];
        lemma_text_lt_irreflexive(a[m].id);
        // The last product of each listing is a product of the other, so neither of
        // the two last ids comes before the other.
        if i < m && j < n {
            lemma_text_lt_transitive(a[m].id, b[n].id, a[m].id);
        }
        assert(a[m] == b[n]);
        let front_a = a.drop_last();
        let front_b = b.drop_last();
        assert forall|x: int| 0 <= x < front_a.len() implies front_b.contains(
            #[trigger] front_a[x],
        ) by {
            assert(front_a[x] == a[x]);
            assert(b.contains(a[x]));
            let y = choose|y: int| 0 <= y < b.len() && b[y] == a[x];
            assert(text_lt(a[x].id, a[m].id));
            assert(y < n);
            assert(front_b[y] == a[x]);
        }
        assert forall|y: int| 0 <= y < front_b.len() implies front_a.contains(
            #[trigger] front_b[y],
        ) by {
            assert(front_b[y] == b[y]);
            assert(a.contains(b[y]));
            let x = choose|x: int| 0 <= x < a.len() && a[x] == b[y];
            assert(text_lt(b[y].id, b[n].id));
            assert(x < m);
            assert(front_a[x] == b[y]);
        }
        assert forall|x: int, y: int| 0 <= x < y < front_a.len() implies text_lt(
            (#[trigger] front_a[x]).id,
            (#[trigger] front_a[y]).id,
        ) by {
            assert(front_a[x] == a[x] && front_a[y] == a[y]);
        }
        assert forall|x: int, y: int| 0 <= x < y < front_b.len() implies text_lt(
            (#[trigger] front_b[x]).id,
            (#[trigger] front_b[y]).id,
        ) by {
            assert(front_b[x] == b[x] && front_b[y] == b[y]);
        }
        lemma_same_products_same_listing(front_a, front_b);
        assert(a =~= front_a.push(a[m]));
        assert(b =~= front_b.push(b[n]));
    }
}

/// Two listings of the same products show no change, in whatever order the venue sent
/// the products, whenever each was captured and whenever the question is asked. The
/// ids of every listing that a monitor keeps ascend.
pub proof fn lemma_same_products_no_change(history: Seq<SnapshotView>, now: nat)
    requires
        history.len() > 0,
        ascending_ids(history.first().products),
        ascending_ids(history.last().products),
        same_products(history.first().products, history.last().products),
    ensures
        comparison_spec(history, now) is None,
        comparable(history),
{
    lemma_same_products_same_listing(history.first().products, history.last().products);
}

/// Where a product with the id is found it has that id, and where none is found no
/// product has it.
pub proof fn lemma_position_of(products: Seq<ProductView>, id: Seq<char>)
    ensures
        match position_of(products, id) {
            Some(i) => 0 <= i < products.len() && products[i].id == id,
            None => forall|j: int| 0 <= j < products.len() ==> (#[trigger] products[j]).id != id,
        },
    decreases products.len(),
{
    if products.len() > 0 && products.last().id != id {
        let front = products.drop_last();
        lemma_position_of(front, id);
        if position_of(front, id) is None {
            assert forall|j: int| 0 <= j < products.len() implies (#[trigger] products[j]).id
                != id by {
                if j < front.len() {
                    assert(front[j] == products[j]);
                }
            }
        }
    }
}

/// `serde_json::from_str` for a `Value`: whether it reads the text, which is a function
/// of the text.
#[verifier::external_body]
fn reads_as_json(text: &str) -> (r: bool)
    ensures
        r == json_reads(text@),
{
    serde_json::from_str::<serde_json::Value>(text).is_ok()
}

/// `JsonDiff::diff_string`, keys and values compared, on the values that `serde_json`
/// reads from the two texts: its report is a function of the two texts, and `None`
/// where it finds no difference. Left out are texts that `serde_json` does not read,
/// and values with an array among the elements of an array: the report of such an
/// array is written as if its elements were steps of a difference.
#[verifier::external_body]
fn diff_json_texts(older: &str, newer: &str) -> (r: Option<String>)
    requires
        diffable(older@, newer@),
    ensures
        text_option_view(r) == structural_diff(older@, newer@),
{
    let a: serde_json::Value = serde_json::from_str(older).unwrap();
    let b: serde_json::Value = serde_json::from_str(newer).unwrap();
    json_structural_diff::JsonDiff::diff_string(&a, &b, false)
}

/// `pretty_duration` with its default options on a span of `nanos` nanoseconds: what it
/// writes is a function of the span.
#[verifier::external_body]
fn pretty(nanos: u64) -> (r: String)
    ensures
        r@ == pretty_duration_text(nanos as nat),
{
    pretty_duration::pretty_duration(&std::time::Duration::from_nanos(nanos), None)
}

} // verus!
