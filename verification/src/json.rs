//! JSON values as the feeds send them.

use crate::decimal::{price_option_view, Price, PriceView};
use vstd::prelude::*;
use vstd::string::{StrSliceExecFns, StringExecFns};

verus! {

/// What a [`Json`] stands for.
pub enum JsonView {
    Null,
    Bool(bool),
    Number { text: Seq<char>, decimal: Option<PriceView> },
    Text(Seq<char>),
    Array(Seq<JsonView>),
    Object(Seq<(Seq<char>, JsonView)>),
}

/// A JSON number: the text that writes it, and the price that it stands for where it
/// stands for one.
#[derive(Clone, Debug, PartialEq, Eq)]
pub struct Number {
    pub text: String,
    pub decimal: Option<Price>,
}

/// A member of a JSON object.
#[derive(Debug, PartialEq, Eq)]
pub struct Member {
    pub key: String,
    pub value: Json,
}

/// A JSON value.
#[derive(Debug, PartialEq, Eq)]
pub enum Json {
    Null,
    Bool(bool),
    Number(Number),
    Text(String),
    Array(Vec<Json>),
    Object(Vec<Member>),
}

impl View for Json {
    type V = JsonView;

    open spec fn view(&self) -> JsonView
        decreases self,
    {
        match self {
            Json::Null => JsonView::Null,
            Json::Bool(b) => JsonView::Bool(*b),
            Json::Number(n) => JsonView::Number {
                text: n.text@,
                decimal: price_option_view(n.decimal),
            },
            Json::Text(s) => JsonView::Text(s@),
            Json::Array(items) => JsonView::Array(json_views(items@)),
            Json::Object(members) => JsonView::Object(member_views(members@)),
        }
    }
}

/// The views of the elements of an array, in their order.
pub open spec fn json_views(items: Seq<Json>) -> Seq<JsonView>
    decreases items,
{
    Seq::new(
        items.len(),
        |i: int|
            if 0 <= i < items.len() {
                items[i]@
            } else {
                JsonView::Null
            },
    )
}

/// The views of the members of an object, in their order.
pub open spec fn member_views(members: Seq<Member>) -> Seq<(Seq<char>, JsonView)>
    decreases members,
{
    Seq::new(
        members.len(),
        |i: int|
            if 0 <= i < members.len() {
                (members[i].key@, members[i].value@)
            } else {
                (Seq::empty(), JsonView::Null)
            },
    )
}

/// The digit that writes a number below sixteen, the letters in lower case.
pub open spec fn hex_digit(n: int) -> char {
    if n < 10 {
        ((48 + n) as u8) as char
    } else {
        ((87 + n) as u8) as char
    }
}

/// What stands for a character inside a JSON string: the quote and the backslash behind
/// a backslash; backspace, tab, line feed, form feed and carriage return as a backslash
/// and their letter; every other character below the space as `\u00` and its two
/// digits; every other character itself.
pub open spec fn escape_char(c: char) -> Seq<char> {
    let code = c as u32 as int;
    if c == '"' {
        seq!['\\', '"']
    } else if c == '\\' {
        seq!['\\', '\\']
    } else if code == 8 {
        seq!['\\', 'b']
    } else if code == 9 {
        seq!['\\', 't']
    } else if code == 10 {
        seq!['\\', 'n']
    } else if code == 12 {
        seq!['\\', 'f']
    } else if code == 13 {
        seq!['\\', 'r']
    } else if code < 32 {
        seq!['\\', 'u', '0', '0', hex_digit(code / 16), hex_digit(code % 16)]
    } else {
        seq![c]
    }
}

/// What stands for the characters of a text inside a JSON string, one after the other.
pub open spec fn escaped(text: Seq<char>) -> Seq<char>
    decreases text.len(),
{
    if text.len() == 0 {
        Seq::empty()
    } else {
        escaped(text.drop_last()) + escape_char(text.last())
    }
}

/// The JSON text of a string: what stands for its characters, between quotes.
pub open spec fn json_quoted(text: Seq<char>) -> Seq<char> {
    seq!['"'] + escaped(text) + seq!['"']
}

/// The value of the last member of `members` whose key is `key`; null where there is none.
pub open spec fn find_member(members: Seq<(Seq<char>, JsonView)>, key: Seq<char>) -> JsonView
    decreases members.len(),
{
    if members.len() == 0 {
        JsonView::Null
    } else {
        let (k, v) = members.last();
        if k == key {
            v
        } else {
            find_member(members.drop_last(), key)
        }
    }
}

/// The member `key` of an object; null where `v` is no object or has no such member.
pub open spec fn member_spec(v: JsonView, key: Seq<char>) -> JsonView {
    match v {
        JsonView::Object(members) => find_member(members, key),
        _ => JsonView::Null,
    }
}

/// The element at `index` of an array; null where `v` is no array or is shorter.
pub open spec fn element_spec(v: JsonView, index: nat) -> JsonView {
    match v {
        JsonView::Array(items) => if index < items.len() {
            items[index as int]
        } else {
            JsonView::Null
        },
        _ => JsonView::Null,
    }
}

/// The compact JSON text of a value: no spaces, the members and elements in their order.
pub open spec fn render_spec(v: JsonView) -> Seq<char>
    decreases v, 0nat,
{
    match v {
        JsonView::Null => "null"@,
        JsonView::Bool(b) => if b {
            "true"@
        } else {
            "false"@
        },
        JsonView::Number { text, decimal } => text,
        JsonView::Text(s) => json_quoted(s),
        JsonView::Array(items) => "["@ + render_items(items, items.len()) + "]"@,
        JsonView::Object(members) => "{"@ + render_members(members, members.len()) + "}"@,
    }
}

/// The texts of the first `upto` elements, with a comma between neighbours.
pub open spec fn render_items(items: Seq<JsonView>, upto: nat) -> Seq<char>
    decreases items, upto,
{
    if upto == 0 || upto > items.len() {
        Seq::empty()
    } else if upto == 1 {
        render_spec(items[0])
    } else {
        render_items(items, (upto - 1) as nat) + ","@ + render_spec(items[upto - 1])
    }
}

/// The text of one member: its quoted key, a colon, its value.
pub open spec fn render_member(member: (Seq<char>, JsonView)) -> Seq<char>
    decreases member, 0nat,
{
    json_quoted(member.0) + ":"@ + render_spec(member.1)
}

/// The texts of the first `upto` members, with a comma between neighbours.
pub open spec fn render_members(members: Seq<(Seq<char>, JsonView)>, upto: nat) -> Seq<char>
    decreases members, upto,
{
    if upto == 0 || upto > members.len() {
        Seq::empty()
    } else if upto == 1 {
        render_member(members[0])
    } else {
        render_members(members, (upto - 1) as nat) + ","@ + render_member(members[upto - 1])
    }
}

/// Whether `c` is one of the characters of which JSON numbers are written: a digit, a
/// sign, the point, or the mark of an exponent.
pub open spec fn is_number_char(c: char) -> bool {
    ('0' <= c && c <= '9') || c == '-' || c == '+' || c == '.' || c == 'e' || c == 'E'
}

/// Whether a text holds nothing but the characters of which JSON numbers are written.
pub open spec fn is_number_text(text: Seq<char>) -> bool {
    forall|i: int| 0 <= i < text.len() ==> is_number_char(#[trigger] text[i])
}

/// Whether a value is plain: no array of it has an array among its elements, and its
/// numbers are written in the characters of numbers.
pub open spec fn is_plain(v: JsonView) -> bool
    decreases v, 0nat,
{
    match v {
        JsonView::Number { text, decimal } => is_number_text(text),
        JsonView::Array(items) => plain_items(items, items.len()),
        JsonView::Object(members) => plain_members(members, members.len()),
        _ => true,
    }
}

/// Whether the first `upto` elements of an array are plain and none of them is an
/// array.
pub open spec fn plain_items(items: Seq<JsonView>, upto: nat) -> bool
    decreases items, upto,
{
    if upto == 0 || upto > items.len() {
        true
    } else {
        plain_items(items, (upto - 1) as nat) && !(items[upto - 1] is Array) && is_plain(
            items[upto - 1],
        )
    }
}

/// Whether the values of the first `upto` members of an object are plain.
pub open spec fn plain_members(members: Seq<(Seq<char>, JsonView)>, upto: nat) -> bool
    decreases members, upto,
{
    if upto == 0 || upto > members.len() {
        true
    } else {
        plain_members(members, (upto - 1) as nat) && is_plain(members[upto - 1].1)
    }
}

/// Whether a text holds nothing but the characters of which JSON numbers are written.
pub fn number_text(text: &str) -> (r: bool)
    ensures
        r == is_number_text(text@),
{
    let n = text.unicode_len();
    let mut i: usize = 0;
    while i < n
        invariant
            i <= n,
            n == text@.len(),
            forall|j: int| 0 <= j < i ==> is_number_char(#[trigger] text@[j]),
        decreases n - i,
    {
        let c = text.get_char(i);
        if !(('0' <= c && c <= '9') || c == '-' || c == '+' || c == '.' || c == 'e' || c == 'E') {
            return false;
        }
        i = i + 1;
    }
    true
}

impl Json {
    /// Whether this value is plain: no array of it has an array among its elements,
    /// and its numbers are written in the characters of numbers.
    pub fn plain(&self) -> (r: bool)
        ensures
            r == is_plain(self@),
        decreases self,
    {
        match self {
            Json::Number(n) => number_text(n.text.as_str()),
            Json::Array(items) => {
                let ghost all = json_views(items@);
                let mut i: usize = 0;
                while i < items.len()
                    invariant
                        i <= items.len(),
                        decreases_to!(self => items),
                        all == json_views(items@),
                        is_plain(self@) == plain_items(all, all.len()),
                        plain_items(all, i as nat),
                    decreases items.len() - i,
                {
                    let is_array = match &items[i] {
                        Json::Array(_) => true,
                        _ => false,
                    };
                    assert(all[i as int] == items@[i as int]@);
                    if is_array || !items[i].plain() {
                        proof {
                            if plain_items(all, all.len()) {
                                lemma_plain_items_up(all, (i + 1) as nat, all.len());
                            }
                        }
                        return false;
                    }
                    i = i + 1;
                }
                true
            },
            Json::Object(members) => {
                let ghost all = member_views(members@);
                let mut i: usize = 0;
                while i < members.len()
                    invariant
                        i <= members.len(),
                        decreases_to!(self => members),
                        all == member_views(members@),
                        is_plain(self@) == plain_members(all, all.len()),
                        plain_members(all, i as nat),
                    decreases members.len() - i,
                {
                    proof {
                        assert(decreases_to!(members => members[i as int]));
                        assert(decreases_to!(members[i as int] => members[i as int].value));
                        assert(all[i as int] == (members@[i as int].key@, members@[i as int].value@));
                    }
                    if !members[i].value.plain() {
                        proof {
                            if plain_members(all, all.len()) {
                                lemma_plain_members_up(all, (i + 1) as nat, all.len());
                            }
                        }
                        return false;
                    }
                    i = i + 1;
                }
                true
            },
            _ => true,
        }
    }

    /// Whether this value is null.
    pub fn is_null(&self) -> (r: bool)
        ensures
            r == (self@ is Null),
    {
        match self {
            Json::Null => true,
            _ => false,
        }
    }

    /// The text of a string; `None` for every other value.
    pub fn as_text(&self) -> (r: Option<&str>)
        ensures
            match self@ {
                JsonView::Text(s) => r is Some && r->0@ == s,
                _ => r is None,
            },
    {
        match self {
            Json::Text(s) => Some(s.as_str()),
            _ => None,
        }
    }

    /// The price that a number stands for; `None` for a number that stands for none and
    /// for every other value.
    pub fn as_decimal(&self) -> (r: Option<Price>)
        ensures
            match self@ {
                JsonView::Number { text, decimal } => price_option_view(r) == decimal,
                _ => r is None,
            },
    {
        match self {
            Json::Number(n) => n.decimal,
            _ => None,
        }
    }

    /// The elements of an array; `None` for every other value.
    pub fn as_array(&self) -> (r: Option<&Vec<Json>>)
        ensures
            match self@ {
                JsonView::Array(items) => r is Some && json_views(r->0@) == items,
                _ => r is None,
            },
    {
        match self {
            Json::Array(items) => Some(items),
            _ => None,
        }
    }

    /// The member `key` of an object, the last one where several have that key; null
    /// where this is no object or has no such member.
    pub fn member<'a>(&'a self, key: &str) -> (r: &'a Json)
        ensures
            r@ == member_spec(self@, key@),
    {
        match self {
            Json::Object(members) => {
                let wanted = key.to_owned();
                let ghost all = member_views(members@);
                let mut i: usize = members.len();
                assert(all.take(i as int) =~= all);
                while i > 0
                    invariant
                        i <= members.len(),
                        all == member_views(members@),
                        wanted@ == key@,
                        member_spec(self@, key@) == find_member(all, key@),
                        find_member(all, key@) == find_member(all.take(i as int), key@),
                    decreases i,
                {
                    i = i - 1;
                    assert(all.take(i + 1).drop_last() =~= all.take(i as int));
                    if members[i].key == wanted {
                        return &members[i].value;
                    }
                }
                &Json::Null
            },
            _ => &Json::Null,
        }
    }

    /// The element at `index` of an array; null where this is no array or is shorter.
    pub fn element<'a>(&'a self, index: usize) -> (r: &'a Json)
        ensures
            r@ == element_spec(self@, index as nat),
    {
        match self {
            Json::Array(items) => {
                assert(json_views(items@).len() == items.len());
                if index < items.len() {
                    &items[index]
                } else {
                    &Json::Null
                }
            },
            _ => &Json::Null,
        }
    }

    /// A copy of this value.
    pub fn duplicate(&self) -> (r: Json)
        ensures
            r@ == self@,
        decreases self,
    {
        match self {
            Json::Null => Json::Null,
            Json::Bool(b) => Json::Bool(*b),
            Json::Number(n) => Json::Number(Number { text: n.text.clone(), decimal: n.decimal }),
            Json::Text(s) => Json::Text(s.clone()),
            Json::Array(items) => {
                let mut copy: Vec<Json> = Vec::new();
                let mut i: usize = 0;
                while i < items.len()
                    invariant
                        i <= items.len(),
                        decreases_to!(self => items),
                        copy.len() == i,
                        forall|j: int| 0 <= j < i ==> (#[trigger] copy@[j])@ == items@[j]@,
                    decreases items.len() - i,
                {
                    copy.push(items[i].duplicate());
                    i = i + 1;
                }
                assert(json_views(copy@) =~= json_views(items@));
                Json::Array(copy)
            },
            Json::Object(members) => Json::Object(duplicate_members(members)),
        }
    }

    /// Writes the compact JSON text of this value behind what `out` holds.
    pub fn render_into(&self, out: &mut String)
        ensures
            final(out)@ == old(out)@ + render_spec(self@),
        decreases self,
    {
        match self {
            Json::Null => out.append("null"),
            Json::Bool(b) => if *b {
                out.append("true")
            } else {
                out.append("false")
            },
            Json::Number(n) => out.append(n.text.as_str()),
            Json::Text(s) => {
                let quoted = quote(s.as_str());
                out.append(quoted.as_str())
            },
            Json::Array(items) => {
                let ghost before = out@;
                let ghost all = json_views(items@);
                out.append("[");
                let mut i: usize = 0;
                while i < items.len()
                    invariant
                        i <= items.len(),
                        decreases_to!(self => items),
                        all == json_views(items@),
                        out@ == before + "["@ + render_items(all, i as nat),
                    decreases items.len() - i,
                {
                    if i > 0 {
                        out.append(",");
                    }
                    items[i].render_into(out);
                    i = i + 1;
                }
                out.append("]");
            },
            Json::Object(members) => {
                let ghost before = out@;
                let ghost all = member_views(members@);
                out.append("{");
                let mut i: usize = 0;
                while i < members.len()
                    invariant
                        i <= members.len(),
                        decreases_to!(self => members),
                        all == member_views(members@),
                        out@ == before + "{"@ + render_members(all, i as nat),
                    decreases members.len() - i,
                {
                    let ghost start = out@;
                    if i > 0 {
                        out.append(",");
                    }
                    let quoted = quote(members[i].key.as_str());
                    out.append(quoted.as_str());
                    out.append(":");
                    members[i].value.render_into(out);
                    proof {
                        let m = all[i as int];
                        if i == 0 {
                            assert(out@ =~= start + render_member(m));
                        } else {
                            assert(out@ =~= before + "{"@ + (render_members(all, i as nat) + ","@
                                + render_member(m)));
                        }
                    }
                    i = i + 1;
                }
                out.append("}");
            },
        }
    }

    /// The compact JSON text of this value.
    pub fn render(&self) -> (r: String)
        ensures
            r@ == render_spec(self@),
    {
        let mut out = String::new();
        self.render_into(&mut out);
        out
    }
}

/// Elements that are plain up to a number are plain up to every smaller one.
proof fn lemma_plain_items_up(items: Seq<JsonView>, low: nat, high: nat)
    requires
        low <= high <= items.len(),
        plain_items(items, high),
    ensures
        plain_items(items, low),
    decreases high - low,
{
    if low < high {
        lemma_plain_items_up(items, low, (high - 1) as nat);
    }
}

/// Members that are plain up to a number are plain up to every smaller one.
proof fn lemma_plain_members_up(members: Seq<(Seq<char>, JsonView)>, low: nat, high: nat)
    requires
        low <= high <= members.len(),
        plain_members(members, high),
    ensures
        plain_members(members, low),
    decreases high - low,
{
    if low < high {
        lemma_plain_members_up(members, low, (high - 1) as nat);
    }
}

/// A copy of the members of an object.
pub fn duplicate_members(members: &Vec<Member>) -> (r: Vec<Member>)
    ensures
        member_views(r@) == member_views(members@),
    decreases members,
{
    let mut copy: Vec<Member> = Vec::new();
    let mut i: usize = 0;
    while i < members.len()
        invariant
            i <= members.len(),
            copy.len() == i,
            forall|j: int|
                0 <= j < i ==> (#[trigger] copy@[j]).key@ == members@[j].key@ && copy@[j].value@
                    == members@[j].value@,
        decreases members.len() - i,
    {
        copy.push(Member { key: members[i].key.clone(), value: members[i].value.duplicate() });
        i = i + 1;
    }
    copy
}

/// `Display` of `serde_json::Value::String`: the string between quotes, with the escapes
/// of `serde_json`'s compact writer: a backslash before the quote and the backslash,
/// the five letters for backspace, tab, line feed, form feed and carriage return,
/// `\u00` and two lower-case digits for every other character below the space, and
/// every other character as it is.
#[verifier::external_body]
fn quote(text: &str) -> (r: String)
    ensures
        r@ == json_quoted(text@),
{
    serde_json::Value::String(text.to_owned()).to_string()
}

} // verus!
