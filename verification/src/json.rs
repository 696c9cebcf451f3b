//! JSON values as the library reads and edits them.

use vstd::prelude::*;
use vstd::string::*;
use crate::name_map::NameMap;
use crate::text::is_white;

verus! {

/// A number as `serde_json` keeps it: an integer or a double. Opaque here.
#[verifier::external_type_specification]
#[verifier::external_body]
pub struct ExNumber(serde_json::Number);

/// A JSON value as `serde_json` keeps it. Opaque here; [`value_tree`] is what
/// it holds.
#[verifier::external_type_specification]
#[verifier::external_body]
pub struct ExValue(serde_json::Value);

/// What a JSON number is: an integer, or a double given by its bit pattern.
pub enum NumberTree {
    Integer(int),
    Double(nat),
}

/// What a JSON value is, as mathematics.
pub enum JsonTree {
    Null,
    Bool(bool),
    Number(NumberTree),
    Str(Seq<char>),
    Array(Seq<JsonTree>),
    Object(Map<Seq<char>, JsonTree>),
}

/// A JSON value.
#[derive(Debug)]
pub enum Json {
    Null,
    Bool(bool),
    Number(serde_json::Number),
    Str(String),
    Array(Vec<Json>),
    Object(NameMap<Json>),
}

/// The number that a `serde_json::Number` holds.
pub uninterp spec fn number_tree(n: serde_json::Number) -> NumberTree;

/// What a `serde_json::Value` holds.
pub uninterp spec fn value_tree(v: serde_json::Value) -> JsonTree;

/// What `serde_json::from_str` reads a text as; `None` where it reports an error.
pub uninterp spec fn parsed_tree(text: Seq<char>) -> Option<JsonTree>;

/// The indented text that `serde_json::to_string_pretty` writes for a value.
pub uninterp spec fn pretty_text(tree: JsonTree) -> Seq<char>;

/// One level of a JSON value, with what lies below still as `serde_json` keeps it.
enum Layer {
    Null,
    Bool(bool),
    Number(serde_json::Number),
    Str(String),
    Array(Vec<serde_json::Value>),
    Object(Vec<(String, serde_json::Value)>),
}

impl Json {
    /// What the value is.
    pub open spec fn tree(self) -> JsonTree
        decreases self,
    {
        match self {
            Json::Null => JsonTree::Null,
            Json::Bool(b) => JsonTree::Bool(b),
            Json::Number(n) => JsonTree::Number(number_tree(n)),
            Json::Str(s) => JsonTree::Str(s@),
            Json::Array(items) => JsonTree::Array(
                Seq::new(
                    items@.len(),
                    |i: int|
                        if 0 <= i < items@.len() {
                            items@[i].tree()
                        } else {
                            JsonTree::Null
                        },
                ),
            ),
            Json::Object(fields) => {
                proof {
                    fields.lemma_values_decrease();
                }
                JsonTree::Object(
                    Map::new(
                        |name: Seq<char>| fields@.contains_key(name),
                        |name: Seq<char>|
                            if fields@.contains_key(name) {
                                fields@[name].tree()
                            } else {
                                JsonTree::Null
                            },
                    ),
                )
            },
        }
    }
}

impl Layer {
    /// Tells whether this is the top level of a value that is `tree`: each
    /// field once, each part in its place.
    spec fn holds(self, tree: JsonTree) -> bool {
        match self {
            Layer::Null => tree == JsonTree::Null,
            Layer::Bool(b) => tree == JsonTree::Bool(b),
            Layer::Number(n) => tree == JsonTree::Number(number_tree(n)),
            Layer::Str(s) => tree == JsonTree::Str(s@),
            Layer::Array(items) => {
                &&& tree matches JsonTree::Array(parts)
                &&& parts.len() == items@.len()
                &&& forall|i: int|
                    0 <= i < items@.len() ==> #[trigger] parts[i] == value_tree(items@[i])
            },
            Layer::Object(fields) => {
                &&& tree matches JsonTree::Object(parts)
                &&& distinct_names(fields@)
                &&& forall|i: int| #![trigger fields@[i]]
                    0 <= i < fields@.len() ==> parts.contains_key(fields@[i].0@)
                        && parts[fields@[i].0@] == value_tree(fields@[i].1)
                &&& forall|name: Seq<char>| #[trigger]
                    parts.contains_key(name) ==> exists|i: int|
                        0 <= i < fields@.len() && (#[trigger] fields@[i]).0@ == name
            },
        }
    }
}

/// Tells whether no field name occurs twice.
spec fn distinct_names(fields: Seq<(String, serde_json::Value)>) -> bool {
    forall|i: int, j: int|
        #![trigger fields[i], fields[j]]
        0 <= i < j < fields.len() ==> fields[i].0@ != fields[j].0@
}

/// `serde_json::from_str::<serde_json::Value>` reads a JSON text. It depends on
/// the text alone, gives a value where the text is JSON and an error where it
/// is not, and no JSON text is empty.
#[verifier::external_body]
fn parse_value(text: &str) -> (r: Option<serde_json::Value>)
    ensures
        match r {
            Some(v) => parsed_tree(text@) == Some(value_tree(v)),
            None => parsed_tree(text@) is None,
        },
        text@.len() == 0 ==> r is None,
{
    serde_json::from_str::<serde_json::Value>(text).ok()
}

/// Takes a `serde_json::Value` apart by one level, one arm for each of its
/// variants. The fields of a `serde_json::Map` come out by `into_iter`, which
/// hands out every entry once.
#[verifier::external_body]
fn open_value(v: serde_json::Value) -> (r: Layer)
    ensures
        r.holds(value_tree(v)),
{
    match v {
        serde_json::Value::Null => Layer::Null,
        serde_json::Value::Bool(b) => Layer::Bool(b),
        serde_json::Value::Number(n) => Layer::Number(n),
        serde_json::Value::String(s) => Layer::Str(s),
        serde_json::Value::Array(items) => Layer::Array(items),
        serde_json::Value::Object(fields) => Layer::Object(fields.into_iter().collect()),
    }
}

/// Puts one level of a JSON value together as a `serde_json::Value`, one arm for
/// each of its variants. The fields go into a `serde_json::Map` by its
/// `FromIterator`, which keeps every entry of a list without repeated names.
#[verifier::external_body]
fn close_value(layer: Layer) -> (r: serde_json::Value)
    requires
        layer matches Layer::Object(fields) ==> distinct_names(fields@),
    ensures
        layer.holds(value_tree(r)),
{
    match layer {
        Layer::Null => serde_json::Value::Null,
        Layer::Bool(b) => serde_json::Value::Bool(b),
        Layer::Number(n) => serde_json::Value::Number(n),
        Layer::Str(s) => serde_json::Value::String(s),
        Layer::Array(items) => serde_json::Value::Array(items),
        Layer::Object(fields) => serde_json::Value::Object(fields.into_iter().collect()),
    }
}

/// Tells whether a value is read back from its own text as it was: it holds no
/// double, whose last digits reading may change, and nests lists and objects at
/// most `depth` deep.
pub open spec fn reads_back(tree: JsonTree, depth: nat) -> bool
    decreases depth,
{
    match tree {
        JsonTree::Number(number) => number is Integer,
        JsonTree::Array(items) => depth > 0 && forall|i: int|
            0 <= i < items.len() ==> reads_back(#[trigger] items[i], (depth - 1) as nat),
        JsonTree::Object(fields) => depth > 0 && forall|name: Seq<char>| #[trigger]
            fields.contains_key(name) ==> reads_back(fields[name], (depth - 1) as nat),
        _ => true,
    }
}

/// Tells whether two values are the same but for the digits of their doubles.
pub open spec fn alike(a: JsonTree, b: JsonTree) -> bool
    decreases a,
{
    match (a, b) {
        (JsonTree::Number(m), JsonTree::Number(n)) => m == n || (m is Double && n is Double),
        (JsonTree::Array(xs), JsonTree::Array(ys)) => xs.len() == ys.len() && forall|i: int|
            0 <= i < xs.len() ==> alike(#[trigger] xs[i], ys[i]),
        (JsonTree::Object(fs), JsonTree::Object(gs)) => {
            &&& forall|name: Seq<char>| #[trigger]
                fs.contains_key(name) <==> gs.contains_key(name)
            &&& forall|name: Seq<char>| #[trigger]
                fs.contains_key(name) ==> alike(fs[name], gs[name])
        },
        _ => a == b,
    }
}

/// `serde_json::to_string_pretty` on a `serde_json::Value` writes indented JSON.
/// The text depends on what the value holds alone, because the fields of an
/// object are kept sorted by name, and writing a value into a string does not fail.
/// It does not start with white space, and `serde_json::from_str` reads it back, with
/// a line end behind it too, as long as the value holds no double and nests at most
/// 127 deep, where reading gives up. Whatever the value holds, if the text with a line
/// end is read at all, then only the digits of doubles differ: a double is written with
/// a point or an exponent, so that it is read as a double.
#[verifier::external_body]
fn print_value(v: &serde_json::Value) -> (r: String)
    ensures
        r@ == pretty_text(value_tree(*v)),
        r@.len() > 0 && !is_white(r@[0]),
        reads_back(value_tree(*v), 127) ==> parsed_tree(r@) == Some(value_tree(*v)),
        reads_back(value_tree(*v), 127) ==> parsed_tree(r@ + "\n"@) == Some(value_tree(*v)),
        parsed_tree(r@ + "\n"@) matches Some(tree) ==> alike(tree, value_tree(*v)),
{
    serde_json::to_string_pretty(v).unwrap()
}

/// `serde_json::Number::as_u64` gives an integer from 0 to `u64::MAX`, and
/// nothing for a negative integer or a double.
#[verifier::external_body]
fn number_as_u64(n: &serde_json::Number) -> (r: Option<u64>)
    ensures
        r == (match number_tree(*n) {
            NumberTree::Integer(k) if 0 <= k <= u64::MAX => Some(k as u64),
            _ => None,
        }),
{
    n.as_u64()
}

/// `serde_json::Number::from` makes the number that is the given integer.
#[verifier::external_body]
fn number_from_u64(n: u64) -> (r: serde_json::Number)
    ensures
        number_tree(r) == NumberTree::Integer(n as int),
{
    serde_json::Number::from(n)
}

/// `serde_json::Number::clone` makes a number with the same value.
#[verifier::external_body]
fn number_copy(n: &serde_json::Number) -> (r: serde_json::Number)
    ensures
        number_tree(r) == number_tree(*n),
{
    n.clone()
}

impl JsonTree {
    /// The field of an object under a name; anything but an object has none.
    pub open spec fn field(self, name: Seq<char>) -> Option<JsonTree> {
        match self {
            JsonTree::Object(fields) if fields.contains_key(name) => Some(fields[name]),
            _ => None,
        }
    }

    /// The text of a string.
    pub open spec fn text(self) -> Option<Seq<char>> {
        match self {
            JsonTree::Str(s) => Some(s),
            _ => None,
        }
    }

    /// The integer of a number that fits `u64`.
    pub open spec fn unsigned(self) -> Option<u64> {
        match self {
            JsonTree::Number(NumberTree::Integer(k)) if 0 <= k <= u64::MAX => Some(k as u64),
            _ => None,
        }
    }

    /// The text of the field under a name, where it is a string.
    pub open spec fn text_field(self, name: Seq<char>) -> Option<Seq<char>> {
        match self.field(name) {
            Some(v) => v.text(),
            None => None,
        }
    }

    /// The integer of the field under a name, 0 where there is none.
    pub open spec fn unsigned_field(self, name: Seq<char>) -> u64 {
        match self.field(name) {
            Some(v) => match v.unsigned() {
                Some(k) => k,
                None => 0,
            },
            None => 0,
        }
    }
}

impl JsonTree {
    /// Tells whether settings with `count` fields can be read from the value: an
    /// object has them by name, a list of at most so many items by position.
    pub open spec fn is_record(self, count: nat) -> bool {
        match self {
            JsonTree::Object(_) => true,
            JsonTree::Array(items) => items.len() <= count,
            _ => false,
        }
    }

    /// The field of settings with the given name and position.
    pub open spec fn record_field(self, name: Seq<char>, position: nat) -> Option<JsonTree> {
        match self {
            JsonTree::Array(items) => if position < items.len() {
                Some(items[position as int])
            } else {
                None
            },
            _ => self.field(name),
        }
    }
}

impl Json {
    /// The object without fields.
    pub fn empty_object() -> (r: Json)
        ensures
            r.tree() == JsonTree::Object(Map::empty()),
            r is Object,
    {
        let r = Json::Object(NameMap::new());
        proof {
            assert(r.tree()->Object_0 =~= Map::<Seq<char>, JsonTree>::empty());
        }
        r
    }

    /// The string with the given text.
    pub fn text(s: &str) -> (r: Json)
        ensures
            r.tree() == JsonTree::Str(s@),
    {
        Json::Str(s.to_owned())
    }

    /// The number that is the given integer.
    pub fn unsigned(n: u64) -> (r: Json)
        ensures
            r.tree() == JsonTree::Number(NumberTree::Integer(n as int)),
    {
        Json::Number(number_from_u64(n))
    }

    /// Reads a JSON text.
    pub fn parse(text: &str) -> (r: Option<Json>)
        ensures
            match r {
                Some(v) => parsed_tree(text@) == Some(v.tree()),
                None => parsed_tree(text@) is None,
            },
            text@.len() == 0 ==> r is None,
    {
        match parse_value(text) {
            Some(v) => Some(Json::from_value(v)),
            None => None,
        }
    }

    /// Writes the value as indented JSON text. It reads back as the same value, with or
    /// without a line end behind it, where the value holds no double and nests at most
    /// 127 deep. Of other values, what is read back differs in the digits of doubles only.
    pub fn pretty(&self) -> (r: String)
        ensures
            r@ == pretty_text(self.tree()),
            r@.len() > 0 && !is_white(r@[0]),
            reads_back(self.tree(), 127) ==> parsed_tree(r@) == Some(self.tree()),
            reads_back(self.tree(), 127) ==> parsed_tree(r@ + "\n"@) == Some(self.tree()),
            parsed_tree(r@ + "\n"@) matches Some(tree) ==> alike(tree, self.tree()),
    {
        print_value(&self.to_value())
    }

    /// The value that a `serde_json::Value` holds.
    pub fn from_value(v: serde_json::Value) -> (r: Json)
        ensures
            r.tree() == value_tree(v),
        decreases value_tree(v),
    {
        let ghost whole = value_tree(v);
        match open_value(v) {
            Layer::Null => Json::Null,
            Layer::Bool(b) => Json::Bool(b),
            Layer::Number(n) => Json::Number(n),
            Layer::Str(s) => Json::Str(s),
            Layer::Array(parts) => {
                let mut parts = parts;
                let ghost all = parts@;
                let mut items: Vec<Json> = Vec::new();
                while parts.len() > 0
                    invariant
                        whole == value_tree(v),
                        whole is Array,
                        whole->Array_0.len() == all.len(),
                        forall|i: int|
                            0 <= i < all.len() ==> #[trigger] whole->Array_0[i] == value_tree(
                                all[i],
                            ),
                        parts@ == all.skip(items@.len() as int),
                        items@.len() + parts@.len() == all.len(),
                        forall|i: int|
                            0 <= i < items@.len() ==> (#[trigger] items@[i]).tree()
                                == whole->Array_0[i],
                    decreases parts@.len(),
                {
                    let ghost n = items@.len() as int;
                    proof {
                        assert(parts@[0] == all[n]);
                        assert(decreases_to!(whole => whole->Array_0[n]));
                    }
                    let part = parts.remove(0);
                    items.push(Json::from_value(part));
                    proof {
                        assert(parts@ =~= all.skip(n + 1));
                    }
                }
                let r = Json::Array(items);
                proof {
                    assert(r.tree()->Array_0 =~= whole->Array_0);
                }
                r
            },
            Layer::Object(parts) => {
                let mut parts = parts;
                let ghost all = parts@;
                let ghost mut done: int = 0;
                let mut fields: NameMap<Json> = NameMap::new();
                while parts.len() > 0
                    invariant
                        0 <= done <= all.len(),
                        whole == value_tree(v),
                        whole is Object,
                        distinct_names(all),
                        forall|i: int| #![trigger all[i]]
                            0 <= i < all.len() ==> whole->Object_0.contains_key(all[i].0@)
                                && whole->Object_0[all[i].0@] == value_tree(all[i].1),
                        parts@ == all.skip(done),
                        parts@.len() == all.len() - done,
                        forall|name: Seq<char>| #[trigger]
                            fields@.contains_key(name) ==> exists|i: int|
                                0 <= i < done && (#[trigger] all[i]).0@ == name,
                        forall|i: int| #![trigger all[i]]
                            0 <= i < done ==> fields@.contains_key(all[i].0@)
                                && fields@[all[i].0@].tree() == value_tree(all[i].1),
                    decreases parts@.len(),
                {
                    proof {
                        assert(parts@[0] == all[done]);
                        assert(decreases_to!(whole => whole->Object_0[all[done].0@]));
                    }
                    let (name, part) = parts.remove(0);
                    let field = Json::from_value(part);
                    fields.insert(name, field);
                    proof {
                        assert(parts@ =~= all.skip(done + 1));
                        done = done + 1;
                    }
                }
                let r = Json::Object(fields);
                proof {
                    assert forall|name: Seq<char>| #[trigger]
                        whole->Object_0.contains_key(name) implies fields@.contains_key(name) by {
                        let i = choose|i: int|
                            0 <= i < all.len() && (#[trigger] all[i]).0@ == name;
                        assert(fields@.contains_key(all[i].0@));
                    }
                    assert(r.tree()->Object_0 =~= whole->Object_0);
                }
                r
            },
        }
    }

    /// The value as a `serde_json::Value`.
    pub fn to_value(&self) -> (r: serde_json::Value)
        ensures
            value_tree(r) == self.tree(),
        decreases self,
    {
        match self {
            Json::Null => close_value(Layer::Null),
            Json::Bool(b) => close_value(Layer::Bool(*b)),
            Json::Number(n) => close_value(Layer::Number(number_copy(n))),
            Json::Str(s) => close_value(Layer::Str(s.clone())),
            Json::Array(items) => {
                let mut parts: Vec<serde_json::Value> = Vec::new();
                let mut i: usize = 0;
                while i < items.len()
                    invariant
                        *self == Json::Array(*items),
                        i <= items@.len(),
                        parts@.len() == i,
                        forall|j: int|
                            0 <= j < i ==> value_tree(#[trigger] parts@[j]) == items@[j].tree(),
                    decreases items@.len() - i,
                {
                    proof {
                        assert(decreases_to!(self->Array_0 => self->Array_0[i as int]));
                        assert(decreases_to!(*self => self->Array_0));
                    }
                    parts.push(items[i].to_value());
                    i += 1;
                }
                let r = close_value(Layer::Array(parts));
                proof {
                    assert(value_tree(r)->Array_0 =~= self.tree()->Array_0);
                }
                r
            },
            Json::Object(fields) => {
                let mut parts: Vec<(String, serde_json::Value)> = Vec::new();
                let n: usize = fields.len();
                let mut i: usize = 0;
                while i < n
                    invariant
                        *self == Json::Object(*fields),
                        n == fields.names().len(),
                        fields.names().no_duplicates(),
                        i <= n,
                        parts@.len() == i,
                        forall|j: int| #![trigger parts@[j]]
                            0 <= j < i ==> parts@[j].0@ == fields.names()[j]
                                && fields@.contains_key(fields.names()[j]) && value_tree(
                                parts@[j].1,
                            ) == fields@[fields.names()[j]].tree(),
                    decreases n - i,
                {
                    let (name, field) = fields.at(i);
                    proof {
                        fields.lemma_values_decrease();
                        assert(decreases_to!(*self => self->Object_0));
                        assert(decreases_to!(self->Object_0 => *field));
                    }
                    parts.push((name.clone(), field.to_value()));
                    i += 1;
                }
                proof {
                    assert(distinct_names(parts@));
                }
                let r = close_value(Layer::Object(parts));
                proof {
                    assert forall|name: Seq<char>| #[trigger]
                        fields@.contains_key(name) implies value_tree(r)->Object_0.contains_key(
                        name,
                    ) && value_tree(r)->Object_0[name] == fields@[name].tree() by {
                        let j = fields.names().index_of(name);
                        assert(fields.names()[j] == name);
                        assert(parts@[j].0@ == name);
                    }
                    assert(value_tree(r)->Object_0 =~= self.tree()->Object_0);
                }
                r
            },
        }
    }

    /// A value equal to this one.
    pub fn copy(&self) -> (r: Json)
        ensures
            r.tree() == self.tree(),
    {
        Json::from_value(self.to_value())
    }

    /// The field of an object under a name.
    pub fn get(&self, name: &str) -> (r: Option<&Json>)
        ensures
            match r {
                Some(v) => self.tree().field(name@) == Some(v.tree()),
                None => self.tree().field(name@) is None,
            },
    {
        match self {
            Json::Object(fields) => fields.get(name),
            _ => None,
        }
    }

    /// The text of a string.
    pub fn as_str(&self) -> (r: Option<&str>)
        ensures
            match r {
                Some(s) => self.tree().text() == Some(s@),
                None => self.tree().text() is None,
            },
    {
        match self {
            Json::Str(s) => Some(s.as_str()),
            _ => None,
        }
    }

    /// The integer of a number that fits `u64`.
    pub fn as_u64(&self) -> (r: Option<u64>)
        ensures
            r == self.tree().unsigned(),
    {
        match self {
            Json::Number(n) => number_as_u64(n),
            _ => None,
        }
    }

    /// Tells whether the value is an object.
    pub fn is_object(&self) -> (r: bool)
        ensures
            r == (self.tree() is Object),
    {
        match self {
            Json::Object(_) => true,
            _ => false,
        }
    }

    /// Tells whether settings with `count` fields can be read from the value.
    pub fn is_record(&self, count: usize) -> (r: bool)
        ensures
            r == self.tree().is_record(count as nat),
    {
        match self {
            Json::Object(_) => true,
            Json::Array(items) => items.len() <= count,
            _ => false,
        }
    }

    /// The field of settings with the given name and position.
    pub fn record_field(&self, name: &str, position: usize) -> (r: Option<&Json>)
        ensures
            match r {
                Some(v) => self.tree().record_field(name@, position as nat) == Some(v.tree()),
                None => self.tree().record_field(name@, position as nat) is None,
            },
    {
        match self {
            Json::Array(items) => if position < items.len() {
                Some(&items[position])
            } else {
                None
            },
            _ => self.get(name),
        }
    }

    /// The text of the field under a name, where it is a string.
    pub fn text_field(&self, name: &str) -> (r: Option<&str>)
        ensures
            match r {
                Some(s) => self.tree().text_field(name@) == Some(s@),
                None => self.tree().text_field(name@) is None,
            },
    {
        match self.get(name) {
            Some(v) => v.as_str(),
            None => None,
        }
    }

    /// The integer of the field under a name, 0 where there is none.
    pub fn unsigned_field(&self, name: &str) -> (r: u64)
        ensures
            r == self.tree().unsigned_field(name@),
    {
        match self.get(name) {
            Some(v) => match v.as_u64() {
                Some(k) => k,
                None => 0,
            },
            None => 0,
        }
    }
}

/// What the items of an array are.
pub open spec fn items_tree(items: Seq<Json>) -> Seq<JsonTree> {
    Seq::new(items.len(), |i: int| items[i].tree())
}

/// What the fields of an object are.
pub open spec fn fields_tree(fields: NameMap<Json>) -> Map<Seq<char>, JsonTree> {
    fields@.map_values(|field: Json| field.tree())
}

/// An array is its items.
pub proof fn lemma_array(items: Vec<Json>)
    ensures
        Json::Array(items).tree() == JsonTree::Array(items_tree(items@)),
{
    assert(Json::Array(items).tree()->Array_0 =~= items_tree(items@));
}

/// An object is its fields.
pub proof fn lemma_object(fields: NameMap<Json>)
    ensures
        Json::Object(fields).tree() == JsonTree::Object(fields_tree(fields)),
{
    assert(Json::Object(fields).tree()->Object_0 =~= fields_tree(fields));
}

/// Puts a value into an object under a name.
pub fn put_field(fields: &mut NameMap<Json>, name: &str, value: Json)
    ensures
        fields_tree(*final(fields)) == fields_tree(*old(fields)).insert(name@, value.tree()),
{
    fields.insert(name.to_owned(), value);
    proof {
        assert(fields_tree(*fields) =~= fields_tree(*old(fields)).insert(name@, value.tree()));
    }
}

/// Takes the field under a name out of an object.
pub fn take_field(fields: &mut NameMap<Json>, name: &str) -> (r: Option<Json>)
    ensures
        fields_tree(*final(fields)) == fields_tree(*old(fields)).remove(name@),
        match r {
            Some(value) => fields_tree(*old(fields)).contains_key(name@) && fields_tree(
                *old(fields),
            )[name@] == value.tree(),
            None => !fields_tree(*old(fields)).contains_key(name@),
        },
{
    let r = fields.remove(name);
    proof {
        assert(fields_tree(*fields) =~= fields_tree(*old(fields)).remove(name@));
    }
    r
}

/// The fields of an object are read by their names: a field, its text where it is a
/// string, and its integer where it is one from 0 to `u64::MAX`.
pub proof fn law_object_is_read_by_name(v: &Json, name: &str, fields: Map<Seq<char>, JsonTree>)
    requires
        v.tree() == JsonTree::Object(fields),
    ensures
        forall|r: Option<&Json>| #[trigger]
            call_ensures(Json::get, (v, name), r) ==> (match r {
                Some(field) => fields.contains_key(name@) && fields[name@] == field.tree(),
                None => !fields.contains_key(name@),
            }),
        forall|r: Option<&str>| #[trigger]
            call_ensures(Json::text_field, (v, name), r) ==> (match r {
                Some(text) => fields.contains_key(name@) && fields[name@] == JsonTree::Str(text@),
                None => fields.contains_key(name@) ==> !(fields[name@] is Str),
            }),
        forall|r: u64| #[trigger]
            call_ensures(Json::unsigned_field, (v, name), r) ==> if fields.contains_key(name@) && (
            fields[name@] matches JsonTree::Number(NumberTree::Integer(k)) && 0 <= k
                <= u64::MAX) {
                fields[name@] == JsonTree::Number(NumberTree::Integer(r as int))
            } else {
                r == 0
            },
        forall|position: usize, r: Option<&Json>| #[trigger]
            call_ensures(Json::record_field, (v, name, position), r) ==> (match r {
                Some(field) => fields.contains_key(name@) && fields[name@] == field.tree(),
                None => !fields.contains_key(name@),
            }),
        forall|count: usize, r: bool| #[trigger] call_ensures(Json::is_record, (v, count), r) ==> r,
{
}

/// A list is read by position, and anything else that is no object has no fields.
pub proof fn law_only_objects_have_fields(v: &Json, name: &str)
    requires
        !(v.tree() is Object),
    ensures
        forall|r: Option<&Json>| #[trigger] call_ensures(Json::get, (v, name), r) ==> r is None,
        forall|r: Option<&str>| #[trigger]
            call_ensures(Json::text_field, (v, name), r) ==> r is None,
        forall|r: u64| #[trigger] call_ensures(Json::unsigned_field, (v, name), r) ==> r == 0,
        forall|position: usize, r: Option<&Json>| #[trigger]
            call_ensures(Json::record_field, (v, name, position), r) ==> (match v.tree() {
                JsonTree::Array(items) if position < items.len() => r matches Some(item)
                    && item.tree() == items[position as int],
                _ => r is None,
            }),
        forall|count: usize, r: bool| #[trigger]
            call_ensures(Json::is_record, (v, count), r) ==> (r <==> v.tree() is Array
                && v.tree()->Array_0.len() <= count),
{
}

/// A copy is the same value, and a value is what it was made from.
pub proof fn law_values_hold_what_they_are_made_from(v: &Json, text: &str, n: u64)
    ensures
        forall|r: Json| #[trigger] call_ensures(Json::copy, (v,), r) ==> r.tree() == v.tree(),
        forall|r: Json| #[trigger]
            call_ensures(Json::text, (text,), r) ==> r.tree() == JsonTree::Str(text@),
        forall|r: Json| #[trigger]
            call_ensures(Json::unsigned, (n,), r) ==> r.tree() == JsonTree::Number(
                NumberTree::Integer(n as int),
            ),
        forall|r: Option<Json>| #[trigger]
            call_ensures(Json::parse, (text,), r) ==> (match r {
                Some(value) => parsed_tree(text@) == Some(value.tree()),
                None => parsed_tree(text@) is None,
            }),
        forall|r: Option<&str>| #[trigger]
            call_ensures(Json::as_str, (v,), r) ==> (match r {
                Some(s) => v.tree() == JsonTree::Str(s@),
                None => !(v.tree() is Str),
            }),
        forall|r: Option<u64>| #[trigger]
            call_ensures(Json::as_u64, (v,), r) ==> (match r {
                Some(k) => v.tree() == JsonTree::Number(NumberTree::Integer(k as int)),
                None => v.tree() matches JsonTree::Number(NumberTree::Integer(k)) ==> !(0 <= k
                    <= u64::MAX),
            }),
{
}

} // verus!
