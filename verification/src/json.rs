//! JSON values as the library holds them.
//!
//! `serde_json` reads JSON text and quotes strings. The library works on [`Json`],
//! whose view is the mathematical [`Tree`].
use vstd::prelude::*;

use crate::text::{copy_of, decimal, is_blank, occurs, occurs_at, same};

verus! {

/// A JSON value. A number keeps the decimal text that `serde_json` gives it; the
/// members of an object stand in the order in which `serde_json` walks them.
#[derive(Debug, PartialEq)]
pub enum Json {
    /// `null`
    Null,
    /// `true` or `false`
    Bool(bool),
    /// A number, as decimal text.
    Number(String),
    /// A string.
    Text(String),
    /// An array.
    List(Vec<Json>),
    /// An object: its members with their names.
    Object(Vec<(String, Json)>),
}

/// The mathematical value of a [`Json`].
pub enum Tree {
    Null,
    Bool(bool),
    Number(Seq<char>),
    Text(Seq<char>),
    List(Seq<Tree>),
    Object(Seq<(Seq<char>, Tree)>),
}

impl Json {
    /// The mathematical value.
    pub open spec fn tree(self) -> Tree
        decreases self,
    {
        match self {
            Json::Null => Tree::Null,
            Json::Bool(b) => Tree::Bool(b),
            Json::Number(s) => Tree::Number(s@),
            Json::Text(s) => Tree::Text(s@),
            Json::List(items) => Tree::List(
                Seq::new(
                    items@.len(),
                    |i: int|
                        if 0 <= i < items@.len() {
                            items@[i].tree()
                        } else {
                            Tree::Null
                        },
                ),
            ),
            Json::Object(members) => Tree::Object(
                Seq::new(
                    members@.len(),
                    |i: int|
                        if 0 <= i < members@.len() {
                            (members@[i].0@, members@[i].1.tree())
                        } else {
                            (Seq::empty(), Tree::Null)
                        },
                ),
            ),
        }
    }
}

impl View for Json {
    type V = Tree;

    open spec fn view(&self) -> Tree {
        self.tree()
    }
}

/// The value of the first member named `key`.
pub open spec fn member(members: Seq<(Seq<char>, Tree)>, key: Seq<char>) -> Option<Tree>
    decreases members.len(),
{
    if members.len() == 0 {
        None
    } else if members[0].0 == key {
        Some(members[0].1)
    } else {
        member(members.drop_first(), key)
    }
}

/// The string that a value is, where it is one.
pub open spec fn text_of(t: Option<Tree>) -> Option<Seq<char>> {
    match t {
        Some(Tree::Text(s)) => Some(s),
        _ => None,
    }
}

/// The array that a value is, where it is one.
pub open spec fn list_of(t: Option<Tree>) -> Option<Seq<Tree>> {
    match t {
        Some(Tree::List(s)) => Some(s),
        _ => None,
    }
}

/// The members of a value, where it is an object.
pub open spec fn object_of(t: Option<Tree>) -> Option<Seq<(Seq<char>, Tree)>> {
    match t {
        Some(Tree::Object(s)) => Some(s),
        _ => None,
    }
}

/// The strings among `items`, in order.
pub open spec fn texts_in(items: Seq<Tree>) -> Seq<Seq<char>>
    decreases items.len(),
{
    if items.len() == 0 {
        Seq::empty()
    } else {
        let before = texts_in(items.drop_last());
        match items.last() {
            Tree::Text(s) => before.push(s),
            _ => before,
        }
    }
}

/// The hexadecimal digit of `d`, with small letters.
pub open spec fn hex_digit(d: u32) -> char {
    if d < 10 {
        (48 + d) as u8 as char
    } else {
        (87 + d) as u8 as char
    }
}

/// A character inside a JSON string: quotation marks, backslashes and control characters are
/// escaped, and all others stand for themselves.
pub open spec fn escaped(c: char) -> Seq<char> {
    let v = c as u32;
    if v == 0x22 || v == 0x5C {
        seq!['\\', c]
    } else if v == 0x08 {
        seq!['\\', 'b']
    } else if v == 0x09 {
        seq!['\\', 't']
    } else if v == 0x0A {
        seq!['\\', 'n']
    } else if v == 0x0C {
        seq!['\\', 'f']
    } else if v == 0x0D {
        seq!['\\', 'r']
    } else if v < 0x20 {
        seq!['\\', 'u', '0', '0', hex_digit(v / 16), hex_digit(v % 16)]
    } else {
        seq![c]
    }
}

/// A string as JSON: in quotation marks, with escapes.
pub open spec fn quoted(s: Seq<char>) -> Seq<char> {
    seq!['"'] + s.map_values(|c: char| escaped(c)).flatten() + seq!['"']
}

/// The compact text of a value: no white space between its parts, members in
/// order, strings quoted.
pub open spec fn compact(t: Tree) -> Seq<char>
    decreases t, 0nat,
{
    match t {
        Tree::Null => "null"@,
        Tree::Bool(b) => if b {
            "true"@
        } else {
            "false"@
        },
        Tree::Number(n) => n,
        Tree::Text(s) => quoted(s),
        Tree::List(items) => "["@ + compact_items(items, items.len()) + "]"@,
        Tree::Object(members) => "{"@ + compact_members(members, members.len()) + "}"@,
    }
}

/// The first `n` items, with commas between them.
pub open spec fn compact_items(items: Seq<Tree>, n: nat) -> Seq<char>
    decreases items, n,
{
    if n == 0 || n > items.len() {
        Seq::empty()
    } else {
        let before = compact_items(items, (n - 1) as nat);
        let this = compact(items[n - 1]);
        if n == 1 {
            this
        } else {
            before + ","@ + this
        }
    }
}

/// The first `n` members, with commas between them.
pub open spec fn compact_members(members: Seq<(Seq<char>, Tree)>, n: nat) -> Seq<char>
    decreases members, n,
{
    if n == 0 || n > members.len() {
        Seq::empty()
    } else {
        let before = compact_members(members, (n - 1) as nat);
        let this = quoted(members[n - 1].0) + ":"@ + compact(members[n - 1].1);
        if n == 1 {
            this
        } else {
            before + ","@ + this
        }
    }
}

/// The indented text of a value: each item and each member stands on a line of its own, two
/// spaces further in than `pad`.
pub open spec fn pretty(t: Tree, pad: Seq<char>) -> Seq<char>
    decreases t, 0nat,
{
    match t {
        Tree::List(items) => if items.len() == 0 {
            "[]"@
        } else {
            "["@ + pretty_items(items, items.len(), pad + "  "@) + "\n"@ + pad + "]"@
        },
        Tree::Object(members) => if members.len() == 0 {
            "{}"@
        } else {
            "{"@ + pretty_members(members, members.len(), pad + "  "@) + "\n"@ + pad + "}"@
        },
        _ => compact(t),
    }
}

/// The lines of the first `n` items.
pub open spec fn pretty_items(items: Seq<Tree>, n: nat, pad: Seq<char>) -> Seq<char>
    decreases items, n,
{
    if n == 0 || n > items.len() {
        Seq::empty()
    } else {
        pretty_items(items, (n - 1) as nat, pad) + if n == 1 {
            "\n"@
        } else {
            ",\n"@
        } + pad + pretty(items[n - 1], pad)
    }
}

/// The lines of the first `n` members.
pub open spec fn pretty_members(members: Seq<(Seq<char>, Tree)>, n: nat, pad: Seq<char>) -> Seq<char>
    decreases members, n,
{
    if n == 0 || n > members.len() {
        Seq::empty()
    } else {
        pretty_members(members, (n - 1) as nat, pad) + if n == 1 {
            "\n"@
        } else {
            ",\n"@
        } + pad + quoted(members[n - 1].0) + ": "@ + pretty(members[n - 1].1, pad)
    }
}

/// `n` is a whole number that fits into 64 bits, in decimal.
pub open spec fn is_whole(n: Seq<char>) -> bool {
    ||| exists|k: nat| k <= u64::MAX && n == #[trigger] decimal(k)
    ||| exists|k: nat| 0 < k <= 0x8000_0000_0000_0000 && n == "-"@ + #[trigger] decimal(k)
}

/// `a` stands before `b` in the order of their characters.
pub open spec fn precedes(a: Seq<char>, b: Seq<char>) -> bool {
    exists|k: int|
        0 <= k <= a.len() && k < b.len() && #[trigger] a.take(k) == b.take(k) && (k == a.len()
            || a[k] < b[k])
}

/// The lists and objects of a value are nested at most `depth` deep, its numbers are whole, and
/// the members of its objects stand in the order of their names.
pub open spec fn is_plain(t: Tree, depth: nat) -> bool
    decreases t,
{
    match t {
        Tree::Number(n) => is_whole(n),
        Tree::List(items) => depth > 0 && forall|i: int|
            0 <= i < items.len() ==> is_plain(#[trigger] items[i], (depth - 1) as nat),
        Tree::Object(members) => {
            &&& depth > 0
            &&& forall|i: int|
                0 <= i < members.len() ==> is_plain((#[trigger] members[i]).1, (depth - 1) as nat)
            &&& forall|i: int, j: int|
                0 <= i < j < members.len() ==> precedes(
                    (#[trigger] members[i]).0,
                    (#[trigger] members[j]).0,
                )
        },
        _ => true,
    }
}

/// How deep `serde_json` reads.
pub const MAX_DEPTH: u32 = 127;

// ---------------------------------------------------------------------------
// serde_json
// ---------------------------------------------------------------------------

/// `serde_json::Value`, a parsed JSON value.
#[verifier::external_type_specification]
#[verifier::external_body]
pub struct ExValue(serde_json::Value);

/// What a `serde_json::Value` holds.
pub uninterp spec fn value_tree(v: serde_json::Value) -> Tree;

/// What `serde_json::from_str` makes of a text: a value, or the text of its error.
pub uninterp spec fn json_read(text: Seq<char>) -> Result<Tree, Seq<char>>;

/// One level of a parsed value.
pub enum Node<'a> {
    Null,
    Bool(bool),
    Number(String),
    Text(&'a String),
    List(&'a Vec<serde_json::Value>),
    Object(Vec<(&'a String, &'a serde_json::Value)>),
}

/// The value whose top level is `n`.
pub open spec fn node_tree(n: Node<'_>) -> Tree {
    match n {
        Node::Null => Tree::Null,
        Node::Bool(b) => Tree::Bool(b),
        Node::Number(s) => Tree::Number(s@),
        Node::Text(s) => Tree::Text(s@),
        Node::List(items) => Tree::List(Seq::new(items@.len(), |i: int| value_tree(items@[i]))),
        Node::Object(ms) => Tree::Object(
            Seq::new(ms@.len(), |i: int| (ms@[i].0@, value_tree(*ms@[i].1))),
        ),
    }
}

/// `serde_json::from_str` reads a text as one JSON value. What comes back, or the
/// text of the error, depends on the text alone. Blank text is no value. The compact text of a
/// value is read back as that value, as long as it is nested no deeper than the reader goes,
/// its numbers are whole, and its members stand in the order that the reader gives them; a
/// number with a fraction may come back rounded.
#[verifier::external_body]
fn read_value(text: &str) -> (r: Result<serde_json::Value, String>)
    ensures
        match r {
            Ok(v) => json_read(text@) == Ok::<Tree, Seq<char>>(value_tree(v)),
            Err(e) => json_read(text@) == Err::<Tree, Seq<char>>(e@),
        },
        is_blank(text@) ==> r is Err,
        forall|t: Tree|
            is_plain(t, MAX_DEPTH as nat) && text@ == #[trigger] compact(t) ==> r is Ok
                && value_tree(r->Ok_0) == t,
{
    serde_json::from_str::<serde_json::Value>(text).map_err(|e| e.to_string())
}

/// The variants of `serde_json::Value`, told apart: the top level of a value, with
/// its parts as they are. A number gives its decimal text, an object its members
/// in the order in which its map is walked.
#[verifier::external_body]
fn top_level(v: &serde_json::Value) -> (r: Node<'_>)
    ensures
        node_tree(r) == value_tree(*v),
{
    match v {
        serde_json::Value::Null => Node::Null,
        serde_json::Value::Bool(b) => Node::Bool(*b),
        serde_json::Value::Number(n) => Node::Number(n.to_string()),
        serde_json::Value::String(s) => Node::Text(s),
        serde_json::Value::Array(items) => Node::List(items),
        serde_json::Value::Object(members) => Node::Object(members.iter().collect()),
    }
}

/// `serde_json::Value` made of a string, as text (`Display`): a JSON string literal, in which
/// only quotation marks, backslashes and control characters are escaped.
#[verifier::external_body]
fn quote(s: &str) -> (r: String)
    ensures
        r@ == quoted(s@),
{
    serde_json::Value::from(s).to_string()
}

// ---------------------------------------------------------------------------
// Reading and writing
// ---------------------------------------------------------------------------

/// The library's form of a parsed value.
pub fn from_value(v: &serde_json::Value) -> (r: Json)
    ensures
        r@ == value_tree(*v),
    decreases value_tree(*v),
{
    let node = top_level(v);
    match node {
        Node::Null => Json::Null,
        Node::Bool(b) => Json::Bool(b),
        Node::Number(s) => Json::Number(s),
        Node::Text(s) => Json::Text(copy_of(s.as_str())),
        Node::List(items) => {
            let mut out: Vec<Json> = Vec::new();
            let mut i: usize = 0;
            let ghost parts = value_tree(*v)->List_0;
            while i < items.len()
                invariant
                    i <= items@.len(),
                    out@.len() == i,
                    value_tree(*v) == Tree::List(parts),
                    parts == Seq::new(items@.len(), |k: int| value_tree(items@[k])),
                    forall|k: int| 0 <= k < i ==> out@[k]@ == #[trigger] parts[k],
                decreases items@.len() - i,
            {
                assert(parts[i as int] == value_tree(items@[i as int]));
                assert(decreases_to!(value_tree(*v) => value_tree(*v)->List_0));
                assert(decreases_to!(parts => parts[i as int]));
                out.push(from_value(&items[i]));
                i += 1;
            }
            let r = Json::List(out);
            assert(r@->List_0 =~= parts);
            r
        },
        Node::Object(ms) => {
            let mut out: Vec<(String, Json)> = Vec::new();
            let mut i: usize = 0;
            let ghost parts = value_tree(*v)->Object_0;
            while i < ms.len()
                invariant
                    i <= ms@.len(),
                    out@.len() == i,
                    value_tree(*v) == Tree::Object(parts),
                    parts == Seq::new(ms@.len(), |k: int| (ms@[k].0@, value_tree(*ms@[k].1))),
                    forall|k: int|
                        0 <= k < i ==> out@[k].0@ == (#[trigger] parts[k]).0 && out@[k].1@
                            == parts[k].1,
                decreases ms@.len() - i,
            {
                assert(parts[i as int] == (ms@[i as int].0@, value_tree(*ms@[i as int].1)));
                assert(decreases_to!(value_tree(*v) => value_tree(*v)->Object_0));
                assert(decreases_to!(parts => parts[i as int]));
                assert(decreases_to!(parts[i as int] => parts[i as int].1));
                out.push((copy_of(ms[i].0.as_str()), from_value(ms[i].1)));
                i += 1;
            }
            let r = Json::Object(out);
            assert(r@->Object_0 =~= parts);
            r
        },
    }
}

/// Reads a JSON text. Blank text is no value, and the text of a plain value is read back as
/// that value.
pub fn parse(text: &str) -> (r: Result<Json, String>)
    ensures
        match r {
            Ok(j) => json_read(text@) == Ok::<Tree, Seq<char>>(j@),
            Err(e) => json_read(text@) == Err::<Tree, Seq<char>>(e@),
        },
        is_blank(text@) ==> r is Err,
        forall|t: Tree|
            is_plain(t, MAX_DEPTH as nat) && text@ == #[trigger] compact(t) ==> r is Ok
                && r->Ok_0@ == t,
{
    match read_value(text) {
        Ok(v) => Ok(from_value(&v)),
        Err(e) => Err(e),
    }
}

impl Json {
    /// The compact text of the value.
    pub fn to_text(&self) -> (r: String)
        ensures
            r@ == compact(self@),
        decreases self,
    {
        match self {
            Json::Null => copy_of("null"),
            Json::Bool(b) => if *b {
                copy_of("true")
            } else {
                copy_of("false")
            },
            Json::Number(n) => copy_of(n.as_str()),
            Json::Text(s) => quote(s.as_str()),
            Json::List(items) => {
                let mut out = copy_of("[");
                let ghost parts = self@->List_0;
                let mut i: usize = 0;
                proof {
                    assert(out@ =~= "["@ + compact_items(parts, 0));
                }
                while i < items.len()
                    invariant
                        i <= items@.len(),
                        *self == Json::List(*items),
                        parts == self@->List_0,
                        out@ == "["@ + compact_items(parts, i as nat),
                    decreases items@.len() - i,
                {
                    let ghost before = out@;
                    assert(parts[i as int] == items@[i as int]@);
                    if i > 0 {
                        out.append(",");
                    }
                    let this = items[i].to_text();
                    out.append(this.as_str());
                    proof {
                        assert(out@ =~= "["@ + compact_items(parts, (i + 1) as nat));
                    }
                    i += 1;
                }
                out.append("]");
                out
            },
            Json::Object(members) => {
                let mut out = copy_of("{");
                let ghost parts = self@->Object_0;
                let mut i: usize = 0;
                proof {
                    assert(out@ =~= "{"@ + compact_members(parts, 0));
                }
                while i < members.len()
                    invariant
                        i <= members@.len(),
                        *self == Json::Object(*members),
                        parts == self@->Object_0,
                        out@ == "{"@ + compact_members(parts, i as nat),
                    decreases members@.len() - i,
                {
                    assert(parts[i as int] == (members@[i as int].0@, members@[i as int].1@));
                    if i > 0 {
                        out.append(",");
                    }
                    let name = quote(members[i].0.as_str());
                    out.append(name.as_str());
                    out.append(":");
                    let this = members[i].1.to_text();
                    out.append(this.as_str());
                    proof {
                        assert(out@ =~= "{"@ + compact_members(parts, (i + 1) as nat));
                    }
                    i += 1;
                }
                out.append("}");
                out
            },
        }
    }

    /// The indented text of the value.
    pub fn to_pretty_text(&self) -> (r: String)
        ensures
            r@ == pretty(self@, Seq::empty()),
    {
        proof {
            reveal_strlit("");
            assert(""@ =~= Seq::<char>::empty());
        }
        self.pretty_at("")
    }

    fn pretty_at(&self, pad: &str) -> (r: String)
        ensures
            r@ == pretty(self@, pad@),
        decreases self,
    {
        match self {
            Json::List(items) => {
                if items.len() == 0 {
                    assert(self@->List_0.len() == 0);
                    return copy_of("[]");
                }
                let mut out = copy_of("[");
                let ghost parts = self@->List_0;
                let mut i: usize = 0;
                let inner = crate::text::concat2(pad, "  ");
                proof {
                    assert(out@ =~= "["@ + pretty_items(parts, 0, inner@));
                }
                while i < items.len()
                    invariant
                        i <= items@.len(),
                        *self == Json::List(*items),
                        parts == self@->List_0,
                        inner@ == pad@ + "  "@,
                        out@ == "["@ + pretty_items(parts, i as nat, inner@),
                    decreases items@.len() - i,
                {
                    assert(parts[i as int] == items@[i as int]@);
                    if i == 0 {
                        out.append("\n");
                    } else {
                        out.append(",\n");
                    }
                    out.append(inner.as_str());
                    let this = items[i].pretty_at(inner.as_str());
                    out.append(this.as_str());
                    proof {
                        assert(out@ =~= "["@ + pretty_items(
                            parts,
                            (i + 1) as nat,
                            inner@,
                        ));
                    }
                    i += 1;
                }
                out.append("\n");
                out.append(pad);
                out.append("]");
                out
            },
            Json::Object(members) => {
                if members.len() == 0 {
                    assert(self@->Object_0.len() == 0);
                    return copy_of("{}");
                }
                let mut out = copy_of("{");
                let ghost parts = self@->Object_0;
                let mut i: usize = 0;
                let inner = crate::text::concat2(pad, "  ");
                proof {
                    assert(out@ =~= "{"@ + pretty_members(parts, 0, inner@));
                }
                while i < members.len()
                    invariant
                        i <= members@.len(),
                        *self == Json::Object(*members),
                        parts == self@->Object_0,
                        inner@ == pad@ + "  "@,
                        out@ == "{"@ + pretty_members(parts, i as nat, inner@),
                    decreases members@.len() - i,
                {
                    assert(parts[i as int] == (members@[i as int].0@, members@[i as int].1@));
                    if i == 0 {
                        out.append("\n");
                    } else {
                        out.append(",\n");
                    }
                    out.append(inner.as_str());
                    let name = quote(members[i].0.as_str());
                    out.append(name.as_str());
                    out.append(": ");
                    let this = members[i].1.pretty_at(inner.as_str());
                    out.append(this.as_str());
                    proof {
                        assert(out@ =~= "{"@ + pretty_members(
                            parts,
                            (i + 1) as nat,
                            inner@,
                        ));
                    }
                    i += 1;
                }
                out.append("\n");
                out.append(pad);
                out.append("}");
                out
            },
            _ => self.to_text(),
        }
    }

    /// A copy of the value.
    pub fn copy(&self) -> (r: Json)
        ensures
            r@ == self@,
        decreases self,
    {
        match self {
            Json::Null => Json::Null,
            Json::Bool(b) => Json::Bool(*b),
            Json::Number(n) => Json::Number(copy_of(n.as_str())),
            Json::Text(s) => Json::Text(copy_of(s.as_str())),
            Json::List(items) => {
                let mut out: Vec<Json> = Vec::new();
                let mut i: usize = 0;
                while i < items.len()
                    invariant
                        i <= items@.len(),
                        *self == Json::List(*items),
                        out@.len() == i,
                        forall|k: int| 0 <= k < i ==> out@[k]@ == (#[trigger] items@[k])@,
                    decreases items@.len() - i,
                {
                    assert(decreases_to!(*self => self->List_0));
                    assert(decreases_to!(items => items@[i as int]));
                    out.push(items[i].copy());
                    i += 1;
                }
                let r = Json::List(out);
                assert(r@->List_0 =~= self@->List_0);
                r
            },
            Json::Object(members) => {
                let mut out: Vec<(String, Json)> = Vec::new();
                let mut i: usize = 0;
                while i < members.len()
                    invariant
                        i <= members@.len(),
                        *self == Json::Object(*members),
                        out@.len() == i,
                        forall|k: int|
                            0 <= k < i ==> out@[k].0@ == (#[trigger] members@[k]).0@ && out@[k].1@
                                == members@[k].1@,
                    decreases members@.len() - i,
                {
                    assert(decreases_to!(*self => self->Object_0));
                    assert(decreases_to!(members => members@[i as int]));
                    out.push((copy_of(members[i].0.as_str()), members[i].1.copy()));
                    i += 1;
                }
                let r = Json::Object(out);
                assert(r@->Object_0 =~= self@->Object_0);
                r
            },
        }
    }

    /// Is this an object?
    pub fn is_object(&self) -> (r: bool)
        ensures
            r == (self@ is Object),
    {
        match self {
            Json::Object(_) => true,
            _ => false,
        }
    }

    /// The first member named `key`, where this is an object that has one.
    pub fn get(&self, key: &str) -> (r: Option<&Json>)
        ensures
            match r {
                Some(j) => self@ is Object && member(self@->Object_0, key@) == Some(j@),
                None => self@ is Object ==> member(self@->Object_0, key@) is None,
            },
    {
        match self {
            Json::Object(members) => {
                let ghost all = self@->Object_0;
                let mut i: usize = 0;
                assert(all.skip(0) =~= all);
                while i < members.len()
                    invariant
                        i <= members@.len(),
                        *self == Json::Object(*members),
                        all == self@->Object_0,
                        member(all, key@) == member(all.skip(i as int), key@),
                    decreases members@.len() - i,
                {
                    assert(all.skip(i as int)[0] == all[i as int]);
                    assert(all[i as int] == (members@[i as int].0@, members@[i as int].1@));
                    if same(members[i].0.as_str(), key) {
                        return Some(&members[i].1);
                    }
                    assert(all.skip(i as int).drop_first() =~= all.skip(i + 1));
                    i += 1;
                }
                assert(all.skip(i as int).len() == 0);
                None
            },
            _ => None,
        }
    }
}

// ---------------------------------------------------------------------------
// Laws
// ---------------------------------------------------------------------------

/// A list is written with all its items, and an object with all its members, each under its
/// name; nothing is left out.
pub proof fn law_every_part_is_written(t: Tree, i: int)
    ensures
        t is List && 0 <= i < t->List_0.len() ==> occurs(compact(t->List_0[i]), compact(t)),
        t is Object && 0 <= i < t->Object_0.len() ==> occurs(
            quoted(t->Object_0[i].0) + ":"@ + compact(t->Object_0[i].1),
            compact(t),
        ),
        t is List ==> compact(t).len() >= 2 && compact(t)[0] == '[' && compact(t).last() == ']',
        t is Object ==> compact(t).len() >= 2 && compact(t)[0] == '{' && compact(t).last() == '}',
{
    reveal_strlit("[");
    reveal_strlit("]");
    reveal_strlit("{");
    reveal_strlit("}");
    let all = compact(t);
    if t is List && 0 <= i < t->List_0.len() {
        let items = t->List_0;
        let part = compact(items[i]);
        let inner = compact_items(items, items.len());
        let at = lemma_item_at(items, items.len(), i);
        assert(all.subrange(1 + at, 1 + at + part.len()) =~= inner.subrange(at, at + part.len()));
        assert(occurs_at(part, all, 1 + at));
    }
    if t is Object && 0 <= i < t->Object_0.len() {
        let members = t->Object_0;
        let part = quoted(members[i].0) + ":"@ + compact(members[i].1);
        let inner = compact_members(members, members.len());
        let at = lemma_member_at(members, members.len(), i);
        assert(all.subrange(1 + at, 1 + at + part.len()) =~= inner.subrange(at, at + part.len()));
        assert(occurs_at(part, all, 1 + at));
    }
}

proof fn lemma_item_at(items: Seq<Tree>, n: nat, i: int) -> (at: int)
    requires
        0 <= i < n <= items.len(),
    ensures
        occurs_at(compact(items[i]), compact_items(items, n), at),
    decreases n,
{
    let all = compact_items(items, n);
    let part = compact(items[i]);
    if i == n - 1 {
        let at = all.len() - part.len();
        assert(all.subrange(at, at + part.len()) =~= part);
        at
    } else {
        let before = compact_items(items, (n - 1) as nat);
        let at = lemma_item_at(items, (n - 1) as nat, i);
        assert(all.subrange(at, at + part.len()) =~= before.subrange(at, at + part.len()));
        at
    }
}

proof fn lemma_member_at(members: Seq<(Seq<char>, Tree)>, n: nat, i: int) -> (at: int)
    requires
        0 <= i < n <= members.len(),
    ensures
        occurs_at(
            quoted(members[i].0) + ":"@ + compact(members[i].1),
            compact_members(members, n),
            at,
        ),
    decreases n,
{
    let all = compact_members(members, n);
    let part = quoted(members[i].0) + ":"@ + compact(members[i].1);
    if i == n - 1 {
        let at = all.len() - part.len();
        assert(all.subrange(at, at + part.len()) =~= part);
        at
    } else {
        let before = compact_members(members, (n - 1) as nat);
        let at = lemma_member_at(members, (n - 1) as nat, i);
        assert(all.subrange(at, at + part.len()) =~= before.subrange(at, at + part.len()));
        at
    }
}

/// The indented text too holds all items and all members, each further in.
pub proof fn law_every_part_is_indented(t: Tree, pad: Seq<char>, i: int)
    ensures
        t is List && 0 <= i < t->List_0.len() ==> occurs(
            pad + "  "@ + pretty(t->List_0[i], pad + "  "@),
            pretty(t, pad),
        ),
        t is Object && 0 <= i < t->Object_0.len() ==> occurs(
            pad + "  "@ + quoted(t->Object_0[i].0) + ": "@ + pretty(
                t->Object_0[i].1,
                pad + "  "@,
            ),
            pretty(t, pad),
        ),
        !(t is List) && !(t is Object) ==> pretty(t, pad) == compact(t),
{
    let all = pretty(t, pad);
    let inside = pad + "  "@;
    if t is List && 0 <= i < t->List_0.len() {
        reveal_strlit("[");
        let items = t->List_0;
        let part = inside + pretty(items[i], inside);
        let inner = pretty_items(items, items.len(), inside);
        let at = lemma_pretty_item_at(items, items.len(), inside, i);
        assert(all.subrange(1 + at, 1 + at + part.len()) =~= inner.subrange(at, at + part.len()));
        assert(occurs_at(part, all, 1 + at));
    }
    if t is Object && 0 <= i < t->Object_0.len() {
        reveal_strlit("{");
        let members = t->Object_0;
        let part = inside + quoted(members[i].0) + ": "@ + pretty(members[i].1, inside);
        let inner = pretty_members(members, members.len(), inside);
        let at = lemma_pretty_member_at(members, members.len(), inside, i);
        assert(all.subrange(1 + at, 1 + at + part.len()) =~= inner.subrange(at, at + part.len()));
        assert(occurs_at(part, all, 1 + at));
    }
}

proof fn lemma_pretty_item_at(items: Seq<Tree>, n: nat, pad: Seq<char>, i: int) -> (at: int)
    requires
        0 <= i < n <= items.len(),
    ensures
        occurs_at(pad + pretty(items[i], pad), pretty_items(items, n, pad), at),
    decreases n,
{
    let all = pretty_items(items, n, pad);
    let part = pad + pretty(items[i], pad);
    let before = pretty_items(items, (n - 1) as nat, pad);
    if i == n - 1 {
        let at = all.len() - part.len();
        assert(all.subrange(at, at + part.len()) =~= part);
        at
    } else {
        let at = lemma_pretty_item_at(items, (n - 1) as nat, pad, i);
        assert(all.subrange(at, at + part.len()) =~= before.subrange(at, at + part.len()));
        at
    }
}

proof fn lemma_pretty_member_at(
    members: Seq<(Seq<char>, Tree)>,
    n: nat,
    pad: Seq<char>,
    i: int,
) -> (at: int)
    requires
        0 <= i < n <= members.len(),
    ensures
        occurs_at(
            pad + quoted(members[i].0) + ": "@ + pretty(members[i].1, pad),
            pretty_members(members, n, pad),
            at,
        ),
    decreases n,
{
    let all = pretty_members(members, n, pad);
    let part = pad + quoted(members[i].0) + ": "@ + pretty(members[i].1, pad);
    let before = pretty_members(members, (n - 1) as nat, pad);
    if i == n - 1 {
        let at = all.len() - part.len();
        assert(all.subrange(at, at + part.len()) =~= part);
        at
    } else {
        let at = lemma_pretty_member_at(members, (n - 1) as nat, pad, i);
        assert(all.subrange(at, at + part.len()) =~= before.subrange(at, at + part.len()));
        at
    }
}

/// What stands under a name in an object is the first member of that name; a name that no member
/// has is not found.
pub proof fn law_member_is_the_first_of_its_name(
    m: Seq<(Seq<char>, Tree)>,
    key: Seq<char>,
    i: int,
)
    requires
        forall|k: int| 0 <= k < i && k < m.len() ==> (#[trigger] m[k]).0 != key,
        0 <= i <= m.len(),
        i < m.len() ==> m[i].0 == key,
    ensures
        i < m.len() ==> member(m, key) == Some(m[i].1),
        i == m.len() ==> member(m, key) is None,
    decreases m.len(),
{
    if i > 0 {
        let rest = m.drop_first();
        assert(m[0].0 != key);
        assert forall|k: int| 0 <= k < i - 1 && k < rest.len() implies (#[trigger] rest[k]).0
            != key by {
            assert(rest[k] == m[k + 1]);
        }
        if i < m.len() {
            assert(rest[i - 1] == m[i]);
        }
        law_member_is_the_first_of_its_name(rest, key, i - 1);
    }
}

/// The strings of a list are read in their order, each as it is; what is no string is passed
/// over.
pub proof fn law_strings_are_read_in_order(items: Seq<Tree>, last: Tree)
    ensures
        texts_in(Seq::empty()) == Seq::<Seq<char>>::empty(),
        last is Text ==> texts_in(items.push(last)) == texts_in(items).push(last->Text_0),
        !(last is Text) ==> texts_in(items.push(last)) == texts_in(items),
{
    assert(items.push(last).drop_last() =~= items);
}

} // verus!
