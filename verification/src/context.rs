//! The answers: what the user gave for each parameter, by name.

use vstd::prelude::*;
use vstd::string::StringExecFns;
use crate::config::{Value, ValueView};
use crate::text::{chars_of, float_literal, is_float};

verus! {

/// The map that a list of answers stands for: each name with the value
/// that was given for it last.
pub open spec fn answers_of(entries: Seq<(String, Value)>) -> Map<Seq<char>, ValueView>
    decreases entries.len(),
{
    if entries.len() == 0 {
        Map::empty()
    } else {
        answers_of(entries.drop_last()).insert(entries.last().0@, entries.last().1@)
    }
}

/// Whether no two entries have the same name.
pub open spec fn distinct_names(entries: Seq<(String, Value)>) -> bool {
    forall|i: int, j: int|
        0 <= i < j < entries.len() ==> (#[trigger] entries[i]).0@ != (#[trigger] entries[j]).0@
}

/// A name is answered where an entry has it, and then with that entry's
/// value if no two entries share a name.
pub proof fn lemma_answers_of(entries: Seq<(String, Value)>, name: Seq<char>)
    ensures
        answers_of(entries).contains_key(name) <==> exists|i: int|
            0 <= i < entries.len() && (#[trigger] entries[i]).0@ == name,
        distinct_names(entries) ==> forall|i: int|
            0 <= i < entries.len() && (#[trigger] entries[i]).0@ == name ==> answers_of(
                entries,
            )[name] == entries[i].1@,
    decreases entries.len(),
{
    if entries.len() > 0 {
        let front = entries.drop_last();
        lemma_answers_of(front, name);
        if entries.last().0@ == name {
            assert(entries[entries.len() - 1].0@ == name);
        } else if answers_of(entries).contains_key(name) {
            let i = choose|i: int| 0 <= i < front.len() && (#[trigger] front[i]).0@ == name;
            assert(entries[i].0@ == name);
        } else {
            assert forall|i: int| 0 <= i < entries.len() implies (#[trigger] entries[i]).0@
                != name by {
                if i < front.len() {
                    assert(front[i].0@ != name);
                }
            }
        }
        if distinct_names(entries) {
            assert(distinct_names(front)) by {
                assert forall|i: int, j: int| 0 <= i < j < front.len() implies (
                #[trigger] front[i]).0@ != (#[trigger] front[j]).0@ by {
                    assert(front[i] == entries[i] && front[j] == entries[j]);
                }
            }
            assert forall|i: int|
                0 <= i < entries.len() && (#[trigger] entries[i]).0@ == name implies answers_of(
                entries,
            )[name] == entries[i].1@ by {
                if i < front.len() {
                    assert(front[i] == entries[i]);
                    assert(entries[i].0@ != entries[entries.len() - 1].0@);
                }
            }
        }
    }
}

/// Giving entry `at` a new value, under the same name, answers that name
/// anew and leaves the others as they were.
pub proof fn lemma_answers_of_update(
    entries: Seq<(String, Value)>,
    at: int,
    entry: (String, Value),
)
    requires
        distinct_names(entries),
        0 <= at < entries.len(),
        entries[at].0@ == entry.0@,
    ensures
        distinct_names(entries.update(at, entry)),
        answers_of(entries.update(at, entry)) == answers_of(entries).insert(entry.0@, entry.1@),
    decreases entries.len(),
{
    let after = entries.update(at, entry);
    assert forall|i: int, j: int| 0 <= i < j < after.len() implies (#[trigger] after[i]).0@ != (
    #[trigger] after[j]).0@ by {
        assert(after[i].0@ == entries[i].0@);
        assert(after[j].0@ == entries[j].0@);
    }
    let front = entries.drop_last();
    if at == entries.len() - 1 {
        assert(after.drop_last() =~= front);
        assert(answers_of(after) =~= answers_of(entries).insert(entry.0@, entry.1@));
    } else {
        assert(distinct_names(front)) by {
            assert forall|i: int, j: int| 0 <= i < j < front.len() implies (
            #[trigger] front[i]).0@ != (#[trigger] front[j]).0@ by {
                assert(front[i] == entries[i] && front[j] == entries[j]);
            }
        }
        lemma_answers_of_update(front, at, entry);
        assert(after.drop_last() =~= front.update(at, entry));
        assert(after.last() == entries.last());
        assert(entries[at].0@ != entries[entries.len() - 1].0@);
        assert(answers_of(after) =~= answers_of(entries).insert(entry.0@, entry.1@));
    }
}

/// The answers to the configured parameters, by name. An answer given
/// under a name that is answered already takes the older one's place.
#[derive(Debug)]
pub struct AnswerMap {
    entries: Vec<(String, Value)>,
}

impl View for AnswerMap {
    type V = Map<Seq<char>, ValueView>;

    open spec fn view(&self) -> Map<Seq<char>, ValueView> {
        answers_of(self.entries())
    }
}

impl AnswerMap {
    #[verifier::type_invariant]
    spec fn names_are_distinct(&self) -> bool {
        distinct_names(self.entries@)
    }

    /// The answers one by one, in the order in which their names were first
    /// answered.
    pub closed spec fn entries(&self) -> Seq<(String, Value)> {
        self.entries@
    }

    /// No answers.
    pub fn new() -> (answers: AnswerMap)
        ensures
            answers@ == Map::<Seq<char>, ValueView>::empty(),
            answers.entries().len() == 0,
    {
        AnswerMap { entries: Vec::new() }
    }

    /// How many names are answered. No name occurs twice among the
    /// answers.
    pub fn len(&self) -> (n: usize)
        ensures
            n == self.entries().len(),
            distinct_names(self.entries()),
    {
        proof {
            use_type_invariant(self);
        }
        self.entries.len()
    }

    /// The name and the value of the answer at `index`.
    pub fn entry(&self, index: usize) -> (entry: (&String, &Value))
        requires
            index < self.entries().len(),
        ensures
            *entry.0 == self.entries()[index as int].0,
            *entry.1 == self.entries()[index as int].1,
            self@.contains_key(entry.0@),
            self@[entry.0@] == entry.1@,
    {
        proof {
            use_type_invariant(self);
            lemma_answers_of(self.entries@, self.entries@[index as int].0@);
        }
        (&self.entries[index].0, &self.entries[index].1)
    }

    /// Where the answer to `name` is kept.
    fn position(&self, name: &String) -> (at: Option<usize>)
        ensures
            at matches Some(i) ==> i < self.entries().len() && self.entries()[i as int].0@
                == name@,
            at is None ==> forall|i: int|
                0 <= i < self.entries().len() ==> (#[trigger] self.entries()[i]).0@ != name@,
    {
        let mut i: usize = 0;
        while i < self.entries.len()
            invariant
                i <= self.entries@.len(),
                forall|j: int| 0 <= j < i ==> (#[trigger] self.entries@[j]).0@ != name@,
            decreases self.entries@.len() - i,
        {
            if self.entries[i].0 == *name {
                return Some(i);
            }
            i += 1;
        }
        None
    }

    /// The answer to `name`, if there is one.
    pub fn get(&self, name: &str) -> (value: Option<&Value>)
        ensures
            value is Some <==> self@.contains_key(name@),
            value matches Some(v) ==> v@ == self@[name@],
    {
        let key = name.to_owned();
        proof {
            use_type_invariant(self);
            lemma_answers_of(self.entries@, name@);
        }
        match self.position(&key) {
            Some(i) => {
                assert(self.entries@[i as int].0@ == name@);
                Some(&self.entries[i].1)
            },
            None => {
                assert forall|i: int| 0 <= i < self.entries@.len() implies (
                #[trigger] self.entries@[i]).0@ != name@ by {
                    assert(self.entries()[i].0@ != name@);
                }
                None
            },
        }
    }

    /// Whether `name` is answered.
    pub fn contains(&self, name: &str) -> (yes: bool)
        ensures
            yes == self@.contains_key(name@),
    {
        self.get(name).is_some()
    }

    /// Answers `name` with `value`, in place of an older answer if there is
    /// one.
    pub fn insert(&mut self, name: String, value: Value)
        ensures
            final(self)@ == old(self)@.insert(name@, value@),
            final(self).entries().len() == old(self).entries().len() + if old(self)@.contains_key(
                name@,
            ) {
                0int
            } else {
                1int
            },
            forall|i: int|
                0 <= i < old(self).entries().len() ==> (#[trigger] final(self).entries()[i]).0@
                    == old(self).entries()[i].0@,
    {
        proof {
            use_type_invariant(&*self);
            lemma_answers_of(self.entries@, name@);
        }
        let at = self.position(&name);
        proof {
            if let Some(i) = at {
                assert(self.entries@[i as int].0@ == name@);
            } else {
                assert forall|i: int| 0 <= i < self.entries@.len() implies (
                #[trigger] self.entries@[i]).0@ != name@ by {
                    assert(self.entries()[i].0@ != name@);
                }
            }
        }
        // The entries are worked on outside `self`, which holds none meanwhile.
        let mut entries: Vec<(String, Value)> = Vec::new();
        std::mem::swap(&mut self.entries, &mut entries);
        let ghost before = entries@;
        match at {
            Some(i) => {
                proof {
                    lemma_answers_of_update(before, i as int, (name, value));
                }
                entries.set(i, (name, value));
            },
            None => {
                proof {
                    let after = before.push((name, value));
                    assert(after.drop_last() =~= before);
                    assert forall|i: int, j: int| 0 <= i < j < after.len() implies (
                    #[trigger] after[i]).0@ != (#[trigger] after[j]).0@ by {
                        if j < before.len() {
                            assert(after[i] == before[i] && after[j] == before[j]);
                        } else {
                            assert(after[i] == before[i]);
                            assert(old(self).entries()[i].0@ != name@);
                        }
                    }
                }
                entries.push((name, value));
            },
        }
        std::mem::swap(&mut self.entries, &mut entries);
    }
}


/// What a TOML document holds under one key: a scalar with its value, or
/// the kind of what else is there.
#[derive(Debug, PartialEq, Eq)]
pub enum Item {
    String(String),
    Integer(i64),
    /// A float, as the text that writes it.
    Float(String),
    Boolean(bool),
    /// A date or time, as the text that writes it.
    Datetime(String),
    Array,
    Table,
}

/// What an [`Item`] stands for.
pub enum ItemView {
    String(Seq<char>),
    Integer(i64),
    Float(Seq<char>),
    Boolean(bool),
    Datetime(Seq<char>),
    Array,
    Table,
}

impl View for Item {
    type V = ItemView;

    open spec fn view(&self) -> ItemView {
        match self {
            Item::String(s) => ItemView::String(s@),
            Item::Integer(i) => ItemView::Integer(*i),
            Item::Float(f) => ItemView::Float(f@),
            Item::Boolean(b) => ItemView::Boolean(*b),
            Item::Datetime(d) => ItemView::Datetime(d@),
            Item::Array => ItemView::Array,
            Item::Table => ItemView::Table,
        }
    }
}

/// The keys and items of a document, as what they stand for.
pub open spec fn items_view(entries: Seq<(String, Item)>) -> Seq<(Seq<char>, ItemView)> {
    Seq::new(entries.len(), |i: int| (entries[i].0@, entries[i].1@))
}

/// `toml::de::Error`: why a text is no TOML document.
#[verifier::external_type_specification]
#[verifier::external_body]
pub struct ExDocumentError(toml::de::Error);

/// A TOML document as the `toml` crate has read it: the `toml::Table` of
/// its top level.
#[verifier::external_body]
pub struct Document {
    table: toml::Table,
}

/// What the `toml::Table` of a document holds: its keys with what each
/// holds, in the order in which the table hands them out.
pub uninterp spec fn document_holds(document: Document) -> Seq<(Seq<char>, ItemView)>;

/// What the `toml` crate reads from `text`: what the document's top table
/// holds; `None` where `text` is no TOML document.
pub uninterp spec fn toml_document(text: Seq<char>) -> Option<Seq<(Seq<char>, ItemView)>>;

/// `toml::from_str` into a `toml::Table`. Claimed: the outcome depends on
/// `text` alone, and [`toml_document`] is its name.
#[verifier::external_body]
fn parse_document(text: &str) -> (r: Result<Document, toml::de::Error>)
    ensures
        r matches Ok(document) ==> toml_document(text@) == Some(document_holds(document)),
        r is Err ==> toml_document(text@) is None,
{
    toml::from_str(text).map(|table| Document { table })
}

/// Hands out the entries of a document's `toml::Table` by its `into_iter`,
/// each value as the [`Item`] of its variant; a float and a date by their
/// `Display`.
#[verifier::external_body]
fn document_items(document: Document) -> (items: Vec<(String, Item)>)
    ensures
        items_view(items@) == document_holds(document),
{
    document.table.into_iter().map(|(key, value)| (key, match value {
        toml::Value::String(s) => Item::String(s),
        toml::Value::Integer(i) => Item::Integer(i),
        toml::Value::Float(f) => Item::Float(f.to_string()),
        toml::Value::Boolean(b) => Item::Boolean(b),
        toml::Value::Datetime(d) => Item::Datetime(d.to_string()),
        toml::Value::Array(_) => Item::Array,
        toml::Value::Table(_) => Item::Table,
    })).collect()
}

/// What the `toml` crate writes for a table with these entries, put in
/// one after the other: the text of the document. `None` where it writes
/// none: where an entry is an array or a table, of which an [`Item`] holds
/// nothing, where the text of a float or a date is none to the crate, and
/// where the crate refuses to write the table.
pub uninterp spec fn toml_text(items: Seq<(Seq<char>, ItemView)>) -> Option<Seq<char>>;

/// Puts the entries in a `toml::Table` by its `insert`, each item as the
/// `toml::Value` of its variant, a float and a date read from their text
/// by `str::parse`, and writes the table with `toml::to_string`. Claimed:
/// the outcome depends on the entries alone, and [`toml_text`] is its
/// name.
#[verifier::external_body]
fn write_document(items: &Vec<(String, Item)>) -> (r: Option<String>)
    ensures
        r matches Some(text) ==> toml_text(items_view(items@)) == Some(text@),
        r is None ==> toml_text(items_view(items@)) is None,
{
    let mut table = toml::Table::new();
    for (name, item) in items {
        table.insert(name.clone(), match item {
            Item::String(s) => toml::Value::String(s.clone()),
            Item::Integer(i) => toml::Value::Integer(*i),
            Item::Float(f) => toml::Value::Float(f.parse().ok()?),
            Item::Boolean(b) => toml::Value::Boolean(*b),
            Item::Datetime(d) => toml::Value::Datetime(d.parse().ok()?),
            Item::Array | Item::Table => return None,
        });
    }
    toml::to_string(&table).ok()
}

/// The message of a `toml::de::Error`, by its `Display`. Nothing is claimed
/// of the text.
#[verifier::external_body]
fn document_error_text(error: &toml::de::Error) -> (message: String) {
    error.to_string()
}

/// Why a text gives no answers.
#[derive(Debug, PartialEq, Eq)]
pub enum ContextError {
    /// The text is no TOML document; what the parser said of it.
    Malformed(String),
    /// Under `name` the document holds what is no integer, float or string.
    Unsupported { name: String },
}

impl ContextError {
    /// The error in words.
    pub fn message(&self) -> (text: String)
        ensures
            text@ == match self {
                ContextError::Malformed(cause) => "Failed to parse TOML: "@ + cause@,
                ContextError::Unsupported { name } =>
                    "Answer is not an integer, a float or a string: "@ + name@,
            },
    {
        match self {
            ContextError::Malformed(cause) => {
                let mut text = "Failed to parse TOML: ".to_owned();
                text.append(cause.as_str());
                text
            },
            ContextError::Unsupported { name } => {
                let mut text = "Answer is not an integer, a float or a string: ".to_owned();
                text.append(name.as_str());
                text
            },
        }
    }
}

/// The value that a scalar item gives as an answer; `None` for an item
/// that is no integer, float or string.
pub open spec fn answer_of(item: ItemView) -> Option<ValueView> {
    match item {
        ItemView::Integer(i) => Some(ValueView::Integer(i)),
        ItemView::Float(f) => if float_literal(f) {
            Some(ValueView::Float(f))
        } else {
            None
        },
        ItemView::String(s) => Some(ValueView::String(s)),
        _ => None,
    }
}

/// The answers that the entries of a document give, each key with the
/// value of its item.
pub open spec fn answers_in(entries: Seq<(Seq<char>, ItemView)>) -> Map<Seq<char>, ValueView>
    decreases entries.len(),
{
    if entries.len() == 0 {
        Map::empty()
    } else {
        answers_in(entries.drop_last()).insert(
            entries.last().0,
            answer_of(entries.last().1).unwrap(),
        )
    }
}

/// The value that `item` gives as an answer.
pub fn item_value(item: &Item) -> (value: Option<Value>)
    ensures
        value is Some <==> answer_of(item@) is Some,
        value matches Some(v) ==> Some(v@) == answer_of(item@) && v@.wf(),
{
    match item {
        Item::Integer(i) => Some(Value::Integer(*i)),
        Item::Float(f) => {
            let chars = chars_of(f.as_str());
            if is_float(chars.as_slice()) {
                Some(Value::Float(f.clone()))
            } else {
                None
            }
        },
        Item::String(s) => Some(Value::String(s.clone())),
        _ => None,
    }
}

/// Whether `r` is what the entries of a document give: the answers where
/// each entry holds an integer, a float or a string, else the error that
/// names the first key that holds anything else.
pub open spec fn read_from(
    entries: Seq<(Seq<char>, ItemView)>,
    r: Result<AnswerMap, ContextError>,
) -> bool {
    match r {
        Ok(answers) => {
            &&& forall|i: int|
                0 <= i < entries.len() ==> answer_of((#[trigger] entries[i]).1) is Some
            &&& answers@ == answers_in(entries)
            &&& forall|name: Seq<char>| #[trigger]
                answers@.contains_key(name) ==> answers@[name].wf()
        },
        Err(ContextError::Unsupported { name }) => exists|k: int|
            {
                &&& 0 <= k < entries.len()
                &&& answer_of((#[trigger] entries[k]).1) is None
                &&& name@ == entries[k].0
                &&& forall|j: int| 0 <= j < k ==> answer_of((#[trigger] entries[j]).1) is Some
            },
        Err(ContextError::Malformed(_)) => false,
    }
}

/// The answers that the entries of a document give.
///
/// Fails where an entry holds what is no integer, float or string; the
/// error names the first such key.
pub fn answers_from(entries: &Vec<(String, Item)>) -> (r: Result<AnswerMap, ContextError>)
    ensures
        read_from(items_view(entries@), r),
{
    let ghost items = items_view(entries@);
    let mut answers = AnswerMap::new();
    let mut i: usize = 0;
    while i < entries.len()
        invariant
            i <= entries@.len(),
            items == items_view(entries@),
            forall|j: int| 0 <= j < i ==> answer_of((#[trigger] items[j]).1) is Some,
            answers@ == answers_in(items.take(i as int)),
            forall|name: Seq<char>| #[trigger]
                answers@.contains_key(name) ==> answers@[name].wf(),
        decreases entries@.len() - i,
    {
        let (name, item) = (&entries[i].0, &entries[i].1);
        assert(items[i as int] == (name@, item@));
        match item_value(item) {
            Some(value) => {
                proof {
                    let next = items.take(i + 1);
                    assert(next.drop_last() =~= items.take(i as int));
                    assert(next.last() == items[i as int]);
                }
                answers.insert(name.clone(), value);
            },
            None => {
                let culprit = name.clone();
                assert(answer_of(items[i as int].1) is None && culprit@ == items[i as int].0);
                return Err(ContextError::Unsupported { name: culprit });
            },
        }
        i += 1;
    }
    assert(items.take(i as int) =~= items);
    Ok(answers)
}

/// Reads the answers from the text of an answer file: a TOML document
/// whose top table holds an integer, a float or a string under each name.
///
/// Fails where the text is no TOML document, and where the document holds
/// anything else under a name.
pub fn read_context(text: &str) -> (r: Result<AnswerMap, ContextError>)
    ensures
        match toml_document(text@) {
            None => r matches Err(ContextError::Malformed(_)),
            Some(entries) => read_from(entries, r),
        },
{
    match parse_document(text) {
        Ok(document) => answers_from(&document_items(document)),
        Err(error) => Err(ContextError::Malformed(document_error_text(&error))),
    }
}


/// What stands in a document for a value.
pub open spec fn item_for(value: ValueView) -> ItemView {
    match value {
        ValueView::Integer(i) => ItemView::Integer(i),
        ValueView::Float(f) => ItemView::Float(f),
        ValueView::String(s) => ItemView::String(s),
    }
}

/// What stands in a document for a list of answers: each name with the
/// item for its value, in the same order.
pub open spec fn items_for(entries: Seq<(String, Value)>) -> Seq<(Seq<char>, ItemView)> {
    Seq::new(entries.len(), |i: int| (entries[i].0@, item_for(entries[i].1@)))
}

/// The item that stands in a document for `value`.
pub fn value_item(value: &Value) -> (item: Item)
    ensures
        item@ == item_for(value@),
{
    match value {
        Value::Integer(i) => Item::Integer(*i),
        Value::Float(f) => Item::Float(f.clone()),
        Value::String(s) => Item::String(s.clone()),
    }
}

impl AnswerMap {
    /// Whether each answer is what its variant says.
    pub open spec fn wf(&self) -> bool {
        forall|i: int| 0 <= i < self.entries().len() ==> (#[trigger] self.entries()[i]).1@.wf()
    }

    /// The entries of the document that keeps the answers: one for each
    /// name, in the order of the answers.
    pub fn to_items(&self) -> (items: Vec<(String, Item)>)
        ensures
            items_view(items@) == items_for(self.entries()),
    {
        let mut items: Vec<(String, Item)> = Vec::new();
        let mut i: usize = 0;
        while i < self.len()
            invariant
                i <= self.entries().len(),
                items@.len() == i,
                forall|j: int|
                    0 <= j < i ==> (#[trigger] items@[j]).0@ == self.entries()[j].0@ && items@[j].1@
                        == item_for(self.entries()[j].1@),
            decreases self.entries().len() - i,
        {
            let (name, value) = self.entry(i);
            items.push((name.clone(), value_item(value)));
            i += 1;
        }
        assert(items_view(items@) =~= items_for(self.entries()));
        items
    }
}

/// The text of the answer file that keeps `answers`, `None` where they
/// cannot be written.
///
/// A float is written as the number that its text writes, not as the text:
/// what is read back from the file is the number's usual form.
pub fn answers_text(answers: &AnswerMap) -> (r: Option<String>)
    ensures
        r matches Some(text) ==> toml_text(items_for(answers.entries())) == Some(text@),
        r is None ==> toml_text(items_for(answers.entries())) is None,
{
    let items = answers.to_items();
    write_document(&items)
}

/// The entries that stand for a list of answers give those answers back,
/// each name with its value, where each value is what its variant says.
pub proof fn lemma_items_give_answers(entries: Seq<(String, Value)>)
    requires
        forall|i: int| 0 <= i < entries.len() ==> (#[trigger] entries[i]).1@.wf(),
    ensures
        forall|i: int|
            0 <= i < entries.len() ==> answer_of((#[trigger] items_for(entries)[i]).1) == Some(
                entries[i].1@,
            ),
        answers_in(items_for(entries)) == answers_of(entries),
    decreases entries.len(),
{
    assert forall|i: int| 0 <= i < entries.len() implies answer_of(
        (#[trigger] items_for(entries)[i]).1,
    ) == Some(entries[i].1@) by {
        assert(entries[i].1@.wf());
    }
    if entries.len() > 0 {
        let front = entries.drop_last();
        assert forall|i: int| 0 <= i < front.len() implies (#[trigger] front[i]).1@.wf() by {
            assert(front[i] == entries[i]);
        }
        lemma_items_give_answers(front);
        assert(items_for(entries).drop_last() =~= items_for(front));
        assert(items_for(entries).last() == (entries.last().0@, item_for(entries.last().1@)));
        assert(answer_of(items_for(entries)[entries.len() - 1].1) == Some(entries.last().1@));
    }
}

/// Answers that are kept as the entries of a document and read back from
/// them come out as they went in: the same names, each with the same
/// value.
///
/// This holds of the entries, not of the text between them: in the text a
/// float stands as a number, and comes back in the number's usual form,
/// which need not be the text that was entered.
pub proof fn lemma_answers_read_back(
    answers: AnswerMap,
    items: Seq<(String, Item)>,
    r: Result<AnswerMap, ContextError>,
)
    requires
        answers.wf(),
        items_view(items) == items_for(answers.entries()),
        read_from(items_view(items), r),
    ensures
        r matches Ok(read) && read@ == answers@,
{
    lemma_items_give_answers(answers.entries());
    let entries = items_view(items);
    match r {
        Ok(_) => {},
        Err(ContextError::Unsupported { name }) => {
            let k = choose|k: int|
                {
                    &&& 0 <= k < entries.len()
                    &&& answer_of((#[trigger] entries[k]).1) is None
                    &&& name@ == entries[k].0
                };
            assert(answer_of(items_for(answers.entries())[k].1) is Some);
        },
        Err(ContextError::Malformed(_)) => {},
    }
}

} // verus!
