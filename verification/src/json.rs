//! JSON values as plain data, with the map of an object as its meaning.

use vstd::prelude::*;

use crate::text::{same, texts};

verus! {

/// A JSON value. A number with a fraction or an exponent is kept as its
/// shortest decimal text. Where a key stands twice in an object, its first
/// entry counts.
#[derive(Debug)]
pub enum Json {
    Null,
    Bool(bool),
    Unsigned(u64),
    Negative(i64),
    Decimal(String),
    Text(String),
    Array(Vec<Json>),
    Object(Vec<(String, Json)>),
}

/// What a JSON value means.
pub enum JsonView {
    Null,
    Bool(bool),
    Unsigned(u64),
    Negative(i64),
    Decimal(Seq<char>),
    Text(Seq<char>),
    Array(Seq<JsonView>),
    Object(Map<Seq<char>, JsonView>),
}

pub open spec fn has_entry(entries: Seq<(String, Json)>, key: Seq<char>) -> bool {
    exists|i: int| is_entry(entries, key, i)
}

/// Entry `i` is the one that counts for `key`.
pub open spec fn is_entry(entries: Seq<(String, Json)>, key: Seq<char>, i: int) -> bool {
    &&& 0 <= i < entries.len()
    &&& entries[i].0@ == key
    &&& forall|j: int| 0 <= j < i ==> (#[trigger] entries[j]).0@ != key
}

pub open spec fn entry_of(entries: Seq<(String, Json)>, key: Seq<char>) -> int {
    choose|i: int| is_entry(entries, key, i)
}

pub open spec fn view_of(value: Json) -> JsonView
    decreases value,
{
    match value {
        Json::Null => JsonView::Null,
        Json::Bool(b) => JsonView::Bool(b),
        Json::Unsigned(n) => JsonView::Unsigned(n),
        Json::Negative(n) => JsonView::Negative(n),
        Json::Decimal(s) => JsonView::Decimal(s@),
        Json::Text(s) => JsonView::Text(s@),
        Json::Array(items) => JsonView::Array(
            Seq::new(
                items@.len(),
                |i: int|
                    if 0 <= i < items@.len() {
                        view_of(items@[i])
                    } else {
                        arbitrary()
                    },
            ),
        ),
        Json::Object(entries) => JsonView::Object(
            Map::new(
                |k: Seq<char>| has_entry(entries@, k),
                |k: Seq<char>|
                    if has_entry(entries@, k) {
                        view_of(entries@[entry_of(entries@, k)].1)
                    } else {
                        arbitrary()
                    },
            ),
        ),
    }
}

impl View for Json {
    type V = JsonView;

    open spec fn view(&self) -> JsonView {
        view_of(*self)
    }
}

/// The meanings of a list of values.
pub open spec fn views(items: Seq<Json>) -> Seq<JsonView> {
    Seq::new(items.len(), |i: int| items[i]@)
}

/// The meaning of an optional value.
pub open spec fn opt_view(value: Option<Json>) -> Option<JsonView> {
    match value {
        Some(value) => Some(value@),
        None => None,
    }
}

/// The meaning of an optional value behind a reference.
pub open spec fn opt_ref_view(value: Option<&Json>) -> Option<JsonView> {
    match value {
        Some(value) => Some(value@),
        None => None,
    }
}

/// What stands under `key`, in an object that has it.
pub open spec fn field(value: JsonView, key: Seq<char>) -> Option<JsonView> {
    match value {
        JsonView::Object(fields) => if fields.dom().contains(key) {
            Some(fields[key])
        } else {
            None
        },
        _ => None,
    }
}

/// The string under `key`, if a string stands there.
pub open spec fn text_field(value: JsonView, key: Seq<char>) -> Option<Seq<char>> {
    match field(value, key) {
        Some(JsonView::Text(s)) => Some(s),
        _ => None,
    }
}

/// The string under `key` is `expected`.
pub open spec fn field_is(value: JsonView, key: Seq<char>, expected: Seq<char>) -> bool {
    text_field(value, key) == Some(expected)
}

/// The list under `key`, if a list stands there.
pub open spec fn array_field(value: JsonView, key: Seq<char>) -> Option<Seq<JsonView>> {
    match field(value, key) {
        Some(JsonView::Array(items)) => Some(items),
        _ => None,
    }
}

/// The truth value under `key`; false, if none stands there.
pub open spec fn flag_field(value: JsonView, key: Seq<char>) -> bool {
    field(value, key) == Some(JsonView::Bool(true))
}

/// The natural number under `key`, if one stands there.
pub open spec fn number_field(value: JsonView, key: Seq<char>) -> Option<u64> {
    match field(value, key) {
        Some(JsonView::Unsigned(n)) => Some(n),
        _ => None,
    }
}

/// An object with one field set; any other value stays as it is.
pub open spec fn with_field(value: JsonView, key: Seq<char>, item: JsonView) -> JsonView {
    match value {
        JsonView::Object(fields) => JsonView::Object(fields.insert(key, item)),
        _ => value,
    }
}

pub open spec fn empty_object() -> JsonView {
    JsonView::Object(Map::empty())
}

pub open spec fn text_view(s: Seq<char>) -> JsonView {
    JsonView::Text(s)
}

pub open spec fn opt_text_view(s: Option<Seq<char>>) -> JsonView {
    match s {
        Some(s) => JsonView::Text(s),
        None => JsonView::Null,
    }
}

pub open spec fn nat_view(n: u64) -> JsonView {
    JsonView::Unsigned(n)
}

pub open spec fn opt_nat_view(n: Option<u64>) -> JsonView {
    match n {
        Some(n) => nat_view(n),
        None => JsonView::Null,
    }
}

/// A missing value is written as null.
pub open spec fn or_null(value: Option<JsonView>) -> JsonView {
    match value {
        Some(value) => value,
        None => JsonView::Null,
    }
}

pub open spec fn texts_view(items: Seq<Seq<char>>) -> JsonView {
    JsonView::Array(Seq::new(items.len(), |i: int| JsonView::Text(items[i])))
}

/// The same decimal number; the sign of a zero does not count.
pub open spec fn same_decimal(a: Seq<char>, b: Seq<char>) -> bool {
    a == b || (is_zero(a) && is_zero(b))
}

pub open spec fn is_zero(s: Seq<char>) -> bool {
    s == "0.0"@ || s == "-0.0"@
}

/// The same value: objects hold the same values under the same keys.
pub open spec fn same_json(a: JsonView, b: JsonView) -> bool
    decreases a,
{
    match (a, b) {
        (JsonView::Decimal(x), JsonView::Decimal(y)) => same_decimal(x, y),
        (JsonView::Array(xs), JsonView::Array(ys)) => xs.len() == ys.len() && forall|i: int|
            0 <= i < xs.len() ==> same_json(#[trigger] xs[i], ys[i]),
        (JsonView::Object(xs), JsonView::Object(ys)) => xs.dom() == ys.dom() && forall|k: Seq<char>|
            xs.dom().contains(k) ==> same_json(#[trigger] xs[k], ys[k]),
        _ => a == b,
    }
}

pub open spec fn same_opt_json(a: Option<JsonView>, b: Option<JsonView>) -> bool {
    match (a, b) {
        (Some(a), Some(b)) => same_json(a, b),
        (None, None) => true,
        _ => false,
    }
}

/// Only one entry counts for a key.
proof fn lemma_entry_of(entries: Seq<(String, Json)>, key: Seq<char>, i: int)
    requires
        is_entry(entries, key, i),
    ensures
        has_entry(entries, key),
        entry_of(entries, key) == i,
{
    let chosen = entry_of(entries, key);
    assert(is_entry(entries, key, chosen));
    if chosen < i {
        assert(entries[chosen].0@ != key);
    }
    if i < chosen {
        assert(entries[i].0@ != key);
    }
}

/// Where a key stands at all, one of its entries is the first.
proof fn lemma_first_entry(entries: Seq<(String, Json)>, key: Seq<char>, i: int)
    requires
        0 <= i < entries.len(),
        entries[i].0@ == key,
    ensures
        has_entry(entries, key),
    decreases i,
{
    if exists|j: int| 0 <= j < i && (#[trigger] entries[j]).0@ == key {
        let j = choose|j: int| 0 <= j < i && (#[trigger] entries[j]).0@ == key;
        lemma_first_entry(entries, key, j);
    } else {
        assert(is_entry(entries, key, i));
    }
}

/// The entry of `entries` that counts for `key`.
fn index_of(entries: &Vec<(String, Json)>, key: &str) -> (index: Option<usize>)
    ensures
        match index {
            Some(i) => is_entry(entries@, key@, i as int),
            None => !has_entry(entries@, key@) && forall|j: int|
                0 <= j < entries@.len() ==> (#[trigger] entries@[j]).0@ != key@,
        },
{
    let mut i: usize = 0;
    while i < entries.len()
        invariant
            i <= entries@.len(),
            forall|j: int| 0 <= j < i ==> (#[trigger] entries@[j]).0@ != key@,
        decreases entries@.len() - i,
    {
        if same(entries[i].0.as_str(), key) {
            return Some(i);
        }
        i = i + 1;
    }
    None
}

impl Json {
    /// What stands under `key`, in an object that has it.
    pub fn get(&self, key: &str) -> (item: Option<&Json>)
        ensures
            opt_ref_view(item) == field(self@, key@),
            item matches Some(item) ==> decreases_to!(self => item),
    {
        match self {
            Json::Object(entries) => {
                match index_of(entries, key) {
                    Some(i) => {
                        proof {
                            lemma_entry_of(entries@, key@, i as int);
                            assert(decreases_to!(self => self->Object_0));
                            assert(decreases_to!(entries => entries[i as int]));
                            assert(decreases_to!(entries[i as int] => entries[i as int].1));
                        }
                        Some(&entries[i].1)
                    },
                    None => None,
                }
            },
            _ => None,
        }
    }

    /// The string that this value is, if it is one.
    pub fn as_text(&self) -> (text: Option<&String>)
        ensures
            match text {
                Some(text) => self@ == JsonView::Text(text@),
                None => !(self@ is Text),
            },
    {
        match self {
            Json::Text(text) => Some(text),
            _ => None,
        }
    }

    /// The string under `key`, if a string stands there.
    pub fn get_text(&self, key: &str) -> (text: Option<&String>)
        ensures
            match text {
                Some(text) => text_field(self@, key@) == Some(text@),
                None => text_field(self@, key@) is None,
            },
    {
        match self.get(key) {
            Some(item) => item.as_text(),
            None => None,
        }
    }

    /// Whether the string under `key` is `expected`.
    pub fn text_is(&self, key: &str, expected: &str) -> (equal: bool)
        ensures
            equal == field_is(self@, key@, expected@),
    {
        match self.get_text(key) {
            Some(text) => same(text.as_str(), expected),
            None => false,
        }
    }

    /// The list under `key`, if a list stands there.
    pub fn get_array(&self, key: &str) -> (items: Option<&Vec<Json>>)
        ensures
            match items {
                Some(items) => array_field(self@, key@) == Some(views(items@)),
                None => array_field(self@, key@) is None,
            },
            items matches Some(items) ==> decreases_to!(self => items),
    {
        match self.get(key) {
            Some(Json::Array(items)) => {
                proof {
                    let item = Json::Array(*items);
                    assert(decreases_to!(item => item->Array_0));
                    assert(views(items@) =~= item@->Array_0);
                }
                Some(items)
            },
            Some(_) => None,
            None => None,
        }
    }

    /// The truth value under `key`; false, if none stands there.
    pub fn get_flag(&self, key: &str) -> (flag: bool)
        ensures
            flag == flag_field(self@, key@),
    {
        match self.get(key) {
            Some(Json::Bool(flag)) => *flag,
            _ => false,
        }
    }

    /// The natural number under `key`, if one stands there.
    pub fn get_number(&self, key: &str) -> (n: Option<u64>)
        ensures
            n == number_field(self@, key@),
    {
        match self.get(key) {
            Some(Json::Unsigned(n)) => Some(*n),
            _ => None,
        }
    }

    pub fn object() -> (value: Json)
        ensures
            value@ == empty_object(),
    {
        let value = Json::Object(Vec::new());
        assert(value@->Object_0 =~= Map::<Seq<char>, JsonView>::empty());
        value
    }

    pub fn text(s: &str) -> (value: Json)
        ensures
            value@ == text_view(s@),
    {
        Json::Text(s.to_owned())
    }

    pub fn opt_text(s: &Option<String>) -> (value: Json)
        ensures
            value@ == opt_text_view(crate::text::opt_text(*s)),
    {
        match s {
            Some(s) => Json::Text(s.clone()),
            None => Json::Null,
        }
    }

    pub fn number(n: u64) -> (value: Json)
        ensures
            value@ == nat_view(n),
    {
        Json::Unsigned(n)
    }

    pub fn opt_number(n: Option<u64>) -> (value: Json)
        ensures
            value@ == opt_nat_view(n),
    {
        match n {
            Some(n) => Json::number(n),
            None => Json::Null,
        }
    }

    /// A missing value is written as null.
    pub fn opt(value: &Option<Json>) -> (result: Json)
        ensures
            result@ == or_null(opt_view(*value)),
    {
        match value {
            Some(value) => value.clone(),
            None => Json::Null,
        }
    }

    pub fn text_list(items: &Vec<String>) -> (value: Json)
        ensures
            value@ == texts_view(texts(items@)),
    {
        let mut list: Vec<Json> = Vec::new();
        let mut i: usize = 0;
        while i < items.len()
            invariant
                i <= items@.len(),
                list@.len() == i,
                forall|j: int| 0 <= j < i ==> (#[trigger] list@[j])@ == JsonView::Text(items@[j]@),
            decreases items@.len() - i,
        {
            list.push(Json::Text(items[i].clone()));
            i = i + 1;
        }
        let value = Json::Array(list);
        assert(value@->Array_0 =~= texts_view(texts(items@))->Array_0);
        value
    }

    /// Sets one field of an object; leaves any other value as it is.
    pub fn set(&mut self, key: &str, item: Json)
        ensures
            final(self)@ == with_field(old(self)@, key@, item@),
    {
        let ghost before = *self;
        match self {
            Json::Object(entries) => {
                let ghost old_entries = entries@;
                match index_of(entries, key) {
                    Some(i) => {
                        entries.set(i, (key.to_owned(), item));
                        proof {
                            assert(entries@[i as int].0@ == key@);
                            lemma_replaced(old_entries, entries@, key@, i as int, item);
                        }
                    },
                    None => {
                        entries.push((key.to_owned(), item));
                        proof {
                            lemma_pushed(old_entries, entries@, key@, item);
                        }
                    },
                }
            },
            _ => {},
        }
        proof {
            if before is Object {
                lemma_object_view(before->Object_0);
                lemma_object_view((*self)->Object_0);
            }
        }
    }
}

spec fn fields_of(entries: Seq<(String, Json)>) -> Map<Seq<char>, JsonView> {
    Map::new(|k: Seq<char>| has_entry(entries, k), |k: Seq<char>| entries[entry_of(entries, k)].1@)
}

proof fn lemma_object_view(entries: Vec<(String, Json)>)
    ensures
        view_of(Json::Object(entries)) == JsonView::Object(fields_of(entries@)),
{
    assert(view_of(Json::Object(entries))->Object_0 =~= fields_of(entries@));
}

proof fn lemma_replaced(
    before: Seq<(String, Json)>,
    after: Seq<(String, Json)>,
    key: Seq<char>,
    i: int,
    item: Json,
)
    requires
        is_entry(before, key, i),
        after == before.update(i, after[i]),
        after[i].0@ == key,
        after[i].1 == item,
    ensures
        fields_of(after) == fields_of(before).insert(key, item@),
{
    assert forall|k: Seq<char>, j: int| is_entry(before, k, j) == #[trigger] is_entry(
        after,
        k,
        j,
    ) by {
        assert(forall|m: int| 0 <= m < before.len() ==> (#[trigger] after[m]).0@ == before[m].0@);
        assert(forall|m: int| 0 <= m < before.len() ==> (#[trigger] before[m]).0@ == after[m].0@);
    }
    assert forall|k: Seq<char>| has_entry(before, k) == #[trigger] has_entry(after, k) by {
        if has_entry(before, k) {
            assert(is_entry(after, k, entry_of(before, k)));
        }
        if has_entry(after, k) {
            assert(is_entry(before, k, entry_of(after, k)));
        }
    }
    lemma_entry_of(before, key, i);
    assert(is_entry(after, key, i));
    lemma_entry_of(after, key, i);
    assert forall|k: Seq<char>| has_entry(before, k) && k != key implies after[entry_of(
        after,
        k,
    )].1@ == before[entry_of(before, k)].1@ by {
        let j = entry_of(before, k);
        assert(is_entry(after, k, j));
        lemma_entry_of(after, k, j);
    }
    assert(fields_of(after) =~= fields_of(before).insert(key, item@));
}

proof fn lemma_pushed(
    before: Seq<(String, Json)>,
    after: Seq<(String, Json)>,
    key: Seq<char>,
    item: Json,
)
    requires
        forall|j: int| 0 <= j < before.len() ==> (#[trigger] before[j]).0@ != key,
        after.len() == before.len() + 1,
        forall|j: int| 0 <= j < before.len() ==> #[trigger] after[j] == before[j],
        after.last().0@ == key,
        after.last().1 == item,
    ensures
        fields_of(after) == fields_of(before).insert(key, item@),
{
    let n = before.len() as int;
    assert(is_entry(after, key, n));
    lemma_entry_of(after, key, n);
    assert forall|k: Seq<char>| k != key implies has_entry(before, k) == #[trigger] has_entry(
        after,
        k,
    ) by {
        if has_entry(before, k) {
            let j = entry_of(before, k);
            assert(is_entry(before, k, j));
            assert(is_entry(after, k, j));
        }
        if has_entry(after, k) {
            let j = entry_of(after, k);
            assert(is_entry(after, k, j));
            assert(j != n);
            assert(forall|m: int| 0 <= m < j ==> (#[trigger] before[m]) == after[m]);
            assert(is_entry(before, k, j));
        }
    }
    assert forall|k: Seq<char>| has_entry(before, k) && k != key implies after[entry_of(
        after,
        k,
    )].1@ == before[entry_of(before, k)].1@ by {
        let j = entry_of(before, k);
        assert(is_entry(before, k, j));
        assert(is_entry(after, k, j));
        lemma_entry_of(after, k, j);
    }
    assert(fields_of(after) =~= fields_of(before).insert(key, item@));
}

impl Clone for Json {
    fn clone(&self) -> (copy: Json)
        ensures
            copy@ == self@,
        decreases self,
    {
        match self {
            Json::Null => Json::Null,
            Json::Bool(b) => Json::Bool(*b),
            Json::Unsigned(n) => Json::Unsigned(*n),
            Json::Negative(n) => Json::Negative(*n),
            Json::Decimal(s) => Json::Decimal(s.clone()),
            Json::Text(s) => Json::Text(s.clone()),
            Json::Array(items) => {
                let mut list: Vec<Json> = Vec::new();
                let mut i: usize = 0;
                while i < items.len()
                    invariant
                        i <= items@.len(),
                        *self == Json::Array(*items),
                        list@.len() == i,
                        forall|j: int| 0 <= j < i ==> (#[trigger] list@[j])@ == items@[j]@,
                    decreases items@.len() - i,
                {
                    assert(decreases_to!(self => self->Array_0));
                    assert(decreases_to!(items => items[i as int]));
                    list.push(items[i].clone());
                    i = i + 1;
                }
                let copy = Json::Array(list);
                assert(copy@->Array_0 =~= self@->Array_0);
                copy
            },
            Json::Object(entries) => {
                let mut list: Vec<(String, Json)> = Vec::new();
                let mut i: usize = 0;
                while i < entries.len()
                    invariant
                        i <= entries@.len(),
                        *self == Json::Object(*entries),
                        list@.len() == i,
                        forall|j: int|
                            0 <= j < i ==> (#[trigger] list@[j]).0@ == entries@[j].0@ && list@[j].1@
                                == entries@[j].1@,
                    decreases entries@.len() - i,
                {
                    assert(decreases_to!(self => self->Object_0));
                    assert(decreases_to!(entries => entries[i as int]));
                    assert(decreases_to!(entries[i as int] => entries[i as int].1));
                    list.push((entries[i].0.clone(), entries[i].1.clone()));
                    i = i + 1;
                }
                proof {
                    lemma_same_fields(entries@, list@);
                }
                let copy = Json::Object(list);
                assert(copy@->Object_0 =~= self@->Object_0);
                copy
            },
        }
    }
}

/// The keys of an object are those of its entries.
proof fn lemma_keys(value: Json)
    requires
        value is Object,
    ensures
        forall|i: int|
            0 <= i < value->Object_0@.len() ==> value@->Object_0.dom().contains(
                (#[trigger] value->Object_0@[i]).0@,
            ),
        forall|k: Seq<char>| #[trigger]
            value@->Object_0.dom().contains(k) ==> exists|i: int|
                0 <= i < value->Object_0@.len() && (#[trigger] value->Object_0@[i]).0@ == k,
{
    let entries = value->Object_0@;
    assert forall|i: int| 0 <= i < entries.len() implies value@->Object_0.dom().contains(
        (#[trigger] entries[i]).0@,
    ) by {
        lemma_first_entry(entries, entries[i].0@, i);
    }
    assert forall|k: Seq<char>| #[trigger] value@->Object_0.dom().contains(k) implies exists|i: int|
        0 <= i < entries.len() && (#[trigger] entries[i]).0@ == k by {
        assert(is_entry(entries, k, entry_of(entries, k)));
    }
}

impl Json {
    /// Whether two values are the same.
    pub fn same_as(&self, other: &Json) -> (equal: bool)
        ensures
            equal == same_json(self@, other@),
        decreases self,
    {
        match (self, other) {
            (Json::Null, Json::Null) => true,
            (Json::Bool(a), Json::Bool(b)) => *a == *b,
            (Json::Unsigned(a), Json::Unsigned(b)) => *a == *b,
            (Json::Negative(a), Json::Negative(b)) => *a == *b,
            (Json::Decimal(a), Json::Decimal(b)) => decimals_agree(a.as_str(), b.as_str()),
            (Json::Text(a), Json::Text(b)) => same(a.as_str(), b.as_str()),
            (Json::Array(xs), Json::Array(ys)) => {
                assert(self@->Array_0 =~= views(xs@));
                assert(other@->Array_0 =~= views(ys@));
                if xs.len() != ys.len() {
                    return false;
                }
                let mut i: usize = 0;
                while i < xs.len()
                    invariant
                        i <= xs@.len() == ys@.len(),
                        *self == Json::Array(*xs),
                        self@->Array_0 == views(xs@),
                        other@ == JsonView::Array(views(ys@)),
                        forall|j: int|
                            0 <= j < i ==> same_json(#[trigger] views(xs@)[j], views(ys@)[j]),
                    decreases xs@.len() - i,
                {
                    assert(decreases_to!(self => self->Array_0));
                    assert(decreases_to!(xs => xs[i as int]));
                    if !xs[i].same_as(&ys[i]) {
                        assert(!same_json(views(xs@)[i as int], views(ys@)[i as int]));
                        return false;
                    }
                    i = i + 1;
                }
                true
            },
            (Json::Object(xs), Json::Object(ys)) => {
                proof {
                    lemma_keys(*self);
                    lemma_keys(*other);
                }
                let ghost left = self@->Object_0;
                let ghost right = other@->Object_0;
                let mut i: usize = 0;
                while i < xs.len()
                    invariant
                        i <= xs@.len(),
                        *self == Json::Object(*xs),
                        self@ == JsonView::Object(left),
                        other@ == JsonView::Object(right),
                        forall|j: int|
                            0 <= j < xs@.len() ==> left.dom().contains((#[trigger] xs@[j]).0@),
                        forall|j: int|
                            0 <= j < i ==> right.dom().contains((#[trigger] xs@[j]).0@)
                                && same_json(left[xs@[j].0@], right[xs@[j].0@]),
                    decreases xs@.len() - i,
                {
                    let key = xs[i].0.as_str();
                    assert(key@ == xs@[i as int].0@);
                    match (self.get(key), other.get(key)) {
                        (Some(x), Some(y)) => {
                            if !x.same_as(y) {
                                assert(!same_json(left[key@], right[key@]));
                                return false;
                            }
                        },
                        _ => {
                            assert(!right.dom().contains(key@));
                            return false;
                        },
                    }
                    i = i + 1;
                }
                let mut n: usize = 0;
                while n < ys.len()
                    invariant
                        n <= ys@.len(),
                        self@ == JsonView::Object(left),
                        other@ == JsonView::Object(right),
                        forall|j: int|
                            0 <= j < ys@.len() ==> right.dom().contains((#[trigger] ys@[j]).0@),
                        forall|j: int|
                            0 <= j < n ==> left.dom().contains((#[trigger] ys@[j]).0@),
                    decreases ys@.len() - n,
                {
                    if self.get(ys[n].0.as_str()).is_none() {
                        assert(!left.dom().contains(ys@[n as int].0@));
                        return false;
                    }
                    n = n + 1;
                }
                assert(left.dom() =~= right.dom());
                true
            },
            _ => false,
        }
    }
}

fn decimals_agree(a: &str, b: &str) -> (equal: bool)
    ensures
        equal == same_decimal(a@, b@),
{
    same(a, b) || ((same(a, "0.0") || same(a, "-0.0")) && (same(b, "0.0") || same(b, "-0.0")))
}

/// Whether two optional values are the same.
pub fn same_options(a: &Option<Json>, b: &Option<Json>) -> (equal: bool)
    ensures
        equal == same_opt_json(opt_view(*a), opt_view(*b)),
{
    match (a, b) {
        (Some(a), Some(b)) => a.same_as(b),
        (None, None) => true,
        _ => false,
    }
}

/// A value says something: a truth value, a number, a string that is not
/// blank, a list with such an item, or an object with such a value that is
/// more than a record of events.
pub open spec fn has_content(value: JsonView) -> bool
    decreases value,
{
    match value {
        JsonView::Null => false,
        JsonView::Bool(_) => true,
        JsonView::Unsigned(_) => true,
        JsonView::Negative(_) => true,
        JsonView::Decimal(_) => true,
        JsonView::Text(s) => crate::text::trimmed(s).len() > 0,
        JsonView::Array(items) => exists|i: int|
            0 <= i < items.len() && has_content(#[trigger] items[i]),
        JsonView::Object(fields) => {
            &&& exists|k: Seq<char>| #[trigger]
                fields.dom().contains(k) && k != "event"@ && k != "events"@
            &&& exists|k: Seq<char>|
                fields.dom().contains(k) && has_content(#[trigger] fields[k])
        },
    }
}

/// Somewhere in the value an object counts zero matches.
pub open spec fn counts_no_match(value: JsonView) -> bool
    decreases value,
{
    match value {
        JsonView::Array(items) => exists|i: int|
            0 <= i < items.len() && counts_no_match(#[trigger] items[i]),
        JsonView::Object(fields) => {
            ||| number_field(value, "match_count"@) == Some(0u64)
            ||| exists|k: Seq<char>|
                fields.dom().contains(k) && counts_no_match(#[trigger] fields[k])
        },
        _ => false,
    }
}

proof fn lemma_list_content(list: Seq<JsonView>, i: int)
    requires
        0 <= i < list.len(),
        has_content(list[i]),
    ensures
        has_content(JsonView::Array(list)),
{
    let value = JsonView::Array(list);
    assert(value->Array_0 == list);
}

proof fn lemma_list_no_match(list: Seq<JsonView>, i: int)
    requires
        0 <= i < list.len(),
        counts_no_match(list[i]),
    ensures
        counts_no_match(JsonView::Array(list)),
{
    let value = JsonView::Array(list);
    assert(value->Array_0 == list);
}

/// Whether a value says something.
pub fn json_value_has_semantic_content(value: &Json) -> (found: bool)
    ensures
        found == has_content(value@),
    decreases value,
{
    match value {
        Json::Null => false,
        Json::Bool(_) => true,
        Json::Unsigned(_) => true,
        Json::Negative(_) => true,
        Json::Decimal(_) => true,
        Json::Text(s) => !crate::text::is_blank(s.as_str()),
        Json::Array(items) => {
            assert(value@->Array_0 =~= views(items@));
            let mut i: usize = 0;
            while i < items.len()
                invariant
                    i <= items@.len(),
                    *value == Json::Array(*items),
                    value@ == JsonView::Array(views(items@)),
                    forall|j: int| 0 <= j < i ==> !has_content(#[trigger] views(items@)[j]),
                decreases items@.len() - i,
            {
                assert(decreases_to!(value => value->Array_0));
                assert(decreases_to!(items => items[i as int]));
                if json_value_has_semantic_content(&items[i]) {
                    proof {
                        lemma_list_content(views(items@), i as int);
                    }
                    return true;
                }
                i = i + 1;
            }
            false
        },
        Json::Object(entries) => {
            proof {
                lemma_keys(*value);
            }
            let ghost fields = value@->Object_0;
            let mut i: usize = 0;
            let mut more_than_events = false;
            let mut content = false;
            while i < entries.len()
                invariant
                    i <= entries@.len(),
                    *value == Json::Object(*entries),
                    value@ == JsonView::Object(fields),
                    forall|j: int|
                        0 <= j < entries@.len() ==> fields.dom().contains(
                            (#[trigger] entries@[j]).0@,
                        ),
                    more_than_events == exists|j: int|
                        0 <= j < i && (#[trigger] entries@[j]).0@ != "event"@ && entries@[j].0@
                            != "events"@,
                    content == exists|j: int|
                        0 <= j < i && has_content(fields[(#[trigger] entries@[j]).0@]),
                decreases entries@.len() - i,
            {
                let key = entries[i].0.as_str();
                assert(key@ == entries@[i as int].0@);
                if !same(key, "event") && !same(key, "events") {
                    more_than_events = true;
                }
                if let Some(item) = value.get(key) {
                    if json_value_has_semantic_content(item) {
                        content = true;
                    }
                }
                i = i + 1;
            }
            proof {
                if more_than_events {
                    let j = choose|j: int|
                        0 <= j < entries@.len() && (#[trigger] entries@[j]).0@ != "event"@
                            && entries@[j].0@ != "events"@;
                    assert(fields.dom().contains(entries@[j].0@));
                }
                if content {
                    let j = choose|j: int|
                        0 <= j < entries@.len() && has_content(fields[(#[trigger] entries@[j]).0@]);
                    assert(fields.dom().contains(entries@[j].0@));
                }
            }
            more_than_events && content
        },
    }
}

/// Whether an object somewhere in the value counts zero matches.
pub fn json_has_zero_match_count(value: &Json) -> (found: bool)
    ensures
        found == counts_no_match(value@),
    decreases value,
{
    match value {
        Json::Array(items) => {
            assert(value@->Array_0 =~= views(items@));
            let mut i: usize = 0;
            while i < items.len()
                invariant
                    i <= items@.len(),
                    *value == Json::Array(*items),
                    value@ == JsonView::Array(views(items@)),
                    forall|j: int| 0 <= j < i ==> !counts_no_match(#[trigger] views(items@)[j]),
                decreases items@.len() - i,
            {
                assert(decreases_to!(value => value->Array_0));
                assert(decreases_to!(items => items[i as int]));
                if json_has_zero_match_count(&items[i]) {
                    proof {
                        lemma_list_no_match(views(items@), i as int);
                    }
                    return true;
                }
                i = i + 1;
            }
            false
        },
        Json::Object(entries) => {
            if value.get_number("match_count") == Some(0u64) {
                return true;
            }
            proof {
                lemma_keys(*value);
            }
            let ghost fields = value@->Object_0;
            let mut i: usize = 0;
            while i < entries.len()
                invariant
                    i <= entries@.len(),
                    *value == Json::Object(*entries),
                    value@ == JsonView::Object(fields),
                    forall|j: int|
                        0 <= j < entries@.len() ==> fields.dom().contains(
                            (#[trigger] entries@[j]).0@,
                        ),
                    forall|j: int|
                        0 <= j < i ==> !counts_no_match(fields[(#[trigger] entries@[j]).0@]),
                decreases entries@.len() - i,
            {
                let key = entries[i].0.as_str();
                assert(key@ == entries@[i as int].0@);
                if let Some(item) = value.get(key) {
                    if json_has_zero_match_count(item) {
                        assert(counts_no_match(fields[key@]));
                        return true;
                    }
                }
                i = i + 1;
            }
            false
        },
        _ => false,
    }
}

proof fn lemma_same_fields(a: Seq<(String, Json)>, b: Seq<(String, Json)>)
    requires
        a.len() == b.len(),
        forall|j: int|
            0 <= j < a.len() ==> (#[trigger] b[j]).0@ == a[j].0@ && b[j].1@ == a[j].1@,
    ensures
        forall|k: Seq<char>| has_entry(a, k) == has_entry(b, k),
        forall|k: Seq<char>| has_entry(a, k) ==> a[entry_of(a, k)].1@ == b[entry_of(b, k)].1@,
{
    assert(forall|j: int| 0 <= j < a.len() ==> (#[trigger] a[j]).0@ == b[j].0@);
    assert forall|k: Seq<char>, j: int| is_entry(a, k, j) == #[trigger] is_entry(b, k, j) by {}
    assert forall|k: Seq<char>| has_entry(a, k) == has_entry(b, k) by {
        if has_entry(a, k) {
            assert(is_entry(b, k, entry_of(a, k)));
        }
        if has_entry(b, k) {
            assert(is_entry(a, k, entry_of(b, k)));
        }
    }
    assert forall|k: Seq<char>| has_entry(a, k) implies a[entry_of(a, k)].1@ == b[entry_of(
        b,
        k,
    )].1@ by {
        let j = entry_of(a, k);
        assert(is_entry(b, k, j));
        lemma_entry_of(b, k, j);
    }
}

/// A value is the same as itself, whatever it holds.
pub proof fn lemma_same_as_itself(value: JsonView)
    ensures
        same_json(value, value),
    decreases value,
{
    match value {
        JsonView::Array(items) => {
            assert forall|i: int| 0 <= i < items.len() implies same_json(
                #[trigger] items[i],
                items[i],
            ) by {
                lemma_same_as_itself(items[i]);
            }
        },
        JsonView::Object(fields) => {
            assert forall|k: Seq<char>| fields.dom().contains(k) implies same_json(
                #[trigger] fields[k],
                fields[k],
            ) by {
                lemma_same_as_itself(fields[k]);
            }
        },
        _ => {},
    }
}

/// Values that are the same have the same strings, lists of the same length and
/// the same whole numbers and flags under each of their keys.
pub proof fn lemma_same_values_have_the_same_fields(a: JsonView, b: JsonView, key: Seq<char>)
    requires
        same_json(a, b),
    ensures
        same_opt_json(field(a, key), field(b, key)),
        text_field(a, key) == text_field(b, key),
        number_field(a, key) == number_field(b, key),
        flag_field(a, key) == flag_field(b, key),
        array_field(a, key) is Some <==> array_field(b, key) is Some,
        array_field(a, key) matches Some(xs) ==> array_field(b, key) matches Some(ys) && xs.len()
            == ys.len(),
{
    if a is Object {
        let fields = a->Object_0;
        if fields.dom().contains(key) {
            assert(same_json(fields[key], b->Object_0[key]));
        }
    }
}

/// What is set under a key is found there, and what stands under another key
/// stays.
pub proof fn lemma_field_is_set(value: JsonView, key: Seq<char>, item: JsonView, other: Seq<char>)
    requires
        value is Object,
        other != key,
    ensures
        field(with_field(value, key, item), key) == Some(item),
        field(with_field(value, key, item), other) == field(value, other),
{
}

/// Output without content has none in its parts, and neither has output that
/// tells of events alone; one part with content is enough for a list.
pub proof fn lemma_content_is_in_the_parts(items: Seq<JsonView>, i: int)
    requires
        0 <= i < items.len(),
    ensures
        has_content(items[i]) ==> has_content(JsonView::Array(items)),
        !has_content(JsonView::Null),
        !has_content(JsonView::Array(Seq::empty())),
        (forall|j: int| 0 <= j < items.len() ==> !has_content(#[trigger] items[j])) ==> !has_content(
            JsonView::Array(items),
        ),
{
    if has_content(items[i]) {
        lemma_list_content(items, i);
    }
}

/// An object with content under a key that is no list of events has content,
/// and one with such lists alone has none.
pub proof fn lemma_events_are_no_content(fields: Map<Seq<char>, JsonView>, key: Seq<char>)
    ensures
        fields.dom().contains(key) && key != "event"@ && key != "events"@ && has_content(fields[key])
            ==> has_content(JsonView::Object(fields)),
        (forall|k: Seq<char>| #[trigger]
            fields.dom().contains(k) ==> k == "event"@ || k == "events"@) ==> !has_content(
            JsonView::Object(fields),
        ),
        (forall|k: Seq<char>|
            fields.dom().contains(k) ==> !has_content(#[trigger] fields[k])) ==> !has_content(
            JsonView::Object(fields),
        ),
{
    let whole = JsonView::Object(fields);
    if fields.dom().contains(key) && key != "event"@ && key != "events"@ && has_content(
        fields[key],
    ) {
        let inner = whole->Object_0;
        assert(inner.dom().contains(key) && has_content(inner[key]));
        assert(has_content(whole));
    }
}

/// A count of zero matches is found however deep it stands, and no other count is
/// taken for one.
pub proof fn lemma_zero_count_is_found(
    fields: Map<Seq<char>, JsonView>,
    items: Seq<JsonView>,
    key: Seq<char>,
    i: int,
    n: u64,
)
    ensures
        counts_no_match(JsonView::Object(fields.insert("match_count"@, JsonView::Unsigned(0)))),
        fields.dom().contains(key) && counts_no_match(fields[key]) ==> counts_no_match(
            JsonView::Object(fields),
        ),
        0 <= i < items.len() && counts_no_match(items[i]) ==> counts_no_match(
            JsonView::Array(items),
        ),
        n > 0 ==> !counts_no_match(
            JsonView::Object(Map::empty().insert("match_count"@, JsonView::Unsigned(n))),
        ),
        !counts_no_match(JsonView::Unsigned(n)),
        !counts_no_match(JsonView::Text(key)),
{
    if 0 <= i < items.len() && counts_no_match(items[i]) {
        lemma_list_no_match(items, i);
    }
    if n > 0 {
        let one: Map<Seq<char>, JsonView> = Map::empty().insert(
            "match_count"@,
            JsonView::Unsigned(n),
        );
        assert(one["match_count"@] == JsonView::Unsigned(n));
        assert forall|k: Seq<char>| one.dom().contains(k) implies !counts_no_match(
            #[trigger] one[k],
        ) by {
            assert(k == "match_count"@);
        }
    }
}

/// A field is read as what it is: a text, a list, a number or a flag, and as
/// nothing else. Only an object has fields.
pub proof fn lemma_field_is_read_as_it_is(value: JsonView, key: Seq<char>, expected: Seq<char>)
    ensures
        value matches JsonView::Object(fields) ==> {
            &&& field(value, key) == (if fields.dom().contains(key) {
                Some(fields[key])
            } else {
                None
            })
            &&& fields.dom().contains(key) ==> (fields[key] matches JsonView::Text(s) ==> text_field(
                value,
                key,
            ) == Some(s))
            &&& fields.dom().contains(key) ==> (fields[key] matches JsonView::Array(items)
                ==> array_field(value, key) == Some(items))
            &&& fields.dom().contains(key) ==> (fields[key] matches JsonView::Unsigned(n)
                ==> number_field(value, key) == Some(n))
            &&& fields.dom().contains(key) && fields[key] == JsonView::Bool(true) ==> flag_field(
                value,
                key,
            )
        },
        !(value is Object) ==> field(value, key) is None,
        field(value, key) is None ==> text_field(value, key) is None && array_field(
            value,
            key,
        ) is None && number_field(value, key) is None && !flag_field(value, key),
        field(value, key) matches Some(item) ==> {
            &&& !(item is Text) ==> text_field(value, key) is None
            &&& !(item is Array) ==> array_field(value, key) is None
            &&& !(item is Unsigned) ==> number_field(value, key) is None
            &&& item != JsonView::Bool(true) ==> !flag_field(value, key)
        },
        field_is(value, key, expected) <==> field(value, key) == Some(JsonView::Text(expected)),
{
}

/// A zero is the same with and without a sign; other decimals are the same only if
/// they are written alike. A value is never the same as none.
pub proof fn lemma_zeros_are_the_same(a: Seq<char>, b: Seq<char>, value: JsonView)
    ensures
        same_json(JsonView::Decimal("0.0"@), JsonView::Decimal("-0.0"@)),
        same_json(JsonView::Decimal("-0.0"@), JsonView::Decimal("0.0"@)),
        a != b && a != "0.0"@ && a != "-0.0"@ ==> !same_json(
            JsonView::Decimal(a),
            JsonView::Decimal(b),
        ),
        a != b && b != "0.0"@ && b != "-0.0"@ ==> !same_json(
            JsonView::Decimal(a),
            JsonView::Decimal(b),
        ),
        !same_opt_json(Some(value), None),
        !same_opt_json(None, Some(value)),
        same_opt_json(None, None),
{
}

} // verus!
