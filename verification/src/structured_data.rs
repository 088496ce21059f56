//! The structured data of RFC 5424: elements named by an SD-ID, each a list
//! of parameters, and their text `[id name="value"]...`.
//!
//! Both levels are maps with text keys that remember the order in which
//! their keys first came. That order is the order of the text.

use vstd::prelude::*;

verus! {

/// No key stands at two places of the list.
pub open spec fn keys_distinct<T>(entries: Seq<(Seq<char>, T)>) -> bool {
    forall|i: int, j: int|
        0 <= i < j < entries.len() ==> (#[trigger] entries[i]).0 != (#[trigger] entries[j]).0
}

/// Some entry of the list has the key.
pub open spec fn has_key<T>(entries: Seq<(Seq<char>, T)>, key: Seq<char>) -> bool {
    exists|i: int| 0 <= i < entries.len() && (#[trigger] entries[i]).0 == key
}

/// The place of `key` in the list: the index of the first entry that has
/// it, or the length of the list where none has.
pub open spec fn key_position<T>(entries: Seq<(Seq<char>, T)>, key: Seq<char>) -> int
    decreases entries.len(),
{
    if entries.len() == 0 {
        0
    } else {
        let before = key_position(entries.drop_last(), key);
        if before < entries.len() - 1 {
            before
        } else if entries.last().0 == key {
            entries.len() - 1
        } else {
            entries.len() as int
        }
    }
}

/// What `key_position` finds: an index within the list holds the key and
/// nothing before it does; the length of the list means that nothing does.
pub proof fn lemma_key_position<T>(entries: Seq<(Seq<char>, T)>, key: Seq<char>)
    ensures
        0 <= key_position(entries, key) <= entries.len(),
        key_position(entries, key) < entries.len() ==> entries[key_position(entries, key)].0 == key,
        forall|i: int| 0 <= i < key_position(entries, key) ==> (#[trigger] entries[i]).0 != key,
        key_position(entries, key) < entries.len() <==> has_key(entries, key),
    decreases entries.len(),
{
    if entries.len() > 0 {
        let front = entries.drop_last();
        lemma_key_position(front, key);
        assert forall|i: int| 0 <= i < key_position(entries, key) implies (#[trigger] entries[i]).0
            != key by {
            if i < front.len() {
                assert(front[i] == entries[i]);
            }
        }
        let at = key_position(entries, key);
        if at < entries.len() {
            if at < front.len() {
                assert(front[at] == entries[at]);
            }
            assert(entries[at].0 == key);
        }
    }
}

/// The value that the list holds for `key`, if it holds one.
pub open spec fn get<T>(entries: Seq<(Seq<char>, T)>, key: Seq<char>) -> Option<T> {
    let at = key_position(entries, key);
    if at < entries.len() {
        Some(entries[at].1)
    } else {
        None
    }
}

/// The list after `key` was given `value`: a key that is there keeps its
/// place and gets the value; a new key goes to the end with it.
pub open spec fn put<T>(entries: Seq<(Seq<char>, T)>, key: Seq<char>, value: T) -> Seq<
    (Seq<char>, T),
> {
    let at = key_position(entries, key);
    if at < entries.len() {
        entries.update(at, (key, value))
    } else {
        entries.push((key, value))
    }
}

/// An index that holds the key, with nothing before it that does, is the
/// key's place; so is the length of a list in which nothing holds it.
pub proof fn lemma_key_position_is<T>(entries: Seq<(Seq<char>, T)>, key: Seq<char>, at: int)
    requires
        0 <= at <= entries.len(),
        at < entries.len() ==> entries[at].0 == key,
        forall|j: int| 0 <= j < at ==> (#[trigger] entries[j]).0 != key,
    ensures
        key_position(entries, key) == at,
{
    lemma_key_position(entries, key);
}

/// Giving a key a value keeps the keys distinct, and makes the list longer
/// by one just when the key is new.
pub proof fn lemma_put_keeps_keys_distinct<T>(
    entries: Seq<(Seq<char>, T)>,
    key: Seq<char>,
    value: T,
)
    requires
        keys_distinct(entries),
    ensures
        keys_distinct(put(entries, key, value)),
        put(entries, key, value).len() == if has_key(entries, key) {
            entries.len()
        } else {
            entries.len() + 1
        },
{
    lemma_key_position(entries, key);
    let at = key_position(entries, key);
    let after = put(entries, key, value);
    assert forall|i: int, j: int| 0 <= i < j < after.len() implies (#[trigger] after[i]).0 != (
    #[trigger] after[j]).0 by {
        if at < entries.len() {
            if i != at && j != at {
                assert(entries[i].0 != entries[j].0);
            } else if i == at {
                assert(entries[at].0 != entries[j].0);
            } else {
                assert(entries[i].0 != entries[at].0);
            }
        } else {
            if j < entries.len() {
                assert(entries[i].0 != entries[j].0);
            } else {
                assert(entries[i].0 != key);
            }
        }
    }
}

/// After a key was given a value, the list holds that value for it, and
/// for every other key what it held before.
pub proof fn lemma_get_after_put<T>(
    entries: Seq<(Seq<char>, T)>,
    key: Seq<char>,
    value: T,
    other: Seq<char>,
)
    ensures
        get(put(entries, key, value), key) == Some(value),
        other != key ==> get(put(entries, key, value), other) == get(entries, other),
{
    lemma_key_position(entries, key);
    lemma_key_position(entries, other);
    let at = key_position(entries, key);
    let after = put(entries, key, value);
    assert forall|j: int| 0 <= j < at implies (#[trigger] after[j]).0 != key by {
        assert(after[j] == entries[j]);
    }
    lemma_key_position_is(after, key, at);
    if other != key {
        let there = key_position(entries, other);
        assert forall|j: int| 0 <= j < there implies (#[trigger] after[j]).0 != other by {
            if j != at {
                assert(after[j] == entries[j]);
            }
        }
        if there < entries.len() {
            assert(after[there] == entries[there]);
            lemma_key_position_is(after, other, there);
        } else {
            assert forall|j: int| 0 <= j < after.len() implies (#[trigger] after[j]).0
                != other by {
                if j < entries.len() && j != at {
                    assert(after[j] == entries[j]);
                }
            }
            lemma_key_position_is(after, other, after.len() as int);
        }
    }
}

/// The text of one parameter: a space, the name, and the value in double
/// quotes. Nothing in the value is escaped.
pub open spec fn param_text(name: Seq<char>, value: Seq<char>) -> Seq<char> {
    seq![' '] + name + seq!['=', '"'] + value + seq!['"']
}

/// The texts of the parameters, one after the other.
pub open spec fn params_text(params: Seq<(Seq<char>, Seq<char>)>) -> Seq<char>
    decreases params.len(),
{
    if params.len() == 0 {
        Seq::empty()
    } else {
        params_text(params.drop_last()) + param_text(params.last().0, params.last().1)
    }
}

/// The text of one element: its SD-ID and its parameters in square
/// brackets.
pub open spec fn element_text(id: Seq<char>, params: Seq<(Seq<char>, Seq<char>)>) -> Seq<char> {
    seq!['['] + id + params_text(params) + seq![']']
}

/// The texts of the elements, one after the other, with nothing between.
pub open spec fn elements_text(elements: Seq<(Seq<char>, Seq<(Seq<char>, Seq<char>)>)>) -> Seq<
    char,
>
    decreases elements.len(),
{
    if elements.len() == 0 {
        Seq::empty()
    } else {
        elements_text(elements.drop_last()) + element_text(
            elements.last().0,
            elements.last().1,
        )
    }
}

/// The STRUCTURED-DATA field: the single hyphen where there is no element,
/// else the texts of the elements.
pub open spec fn structured_data_text(
    elements: Seq<(Seq<char>, Seq<(Seq<char>, Seq<char>)>)>,
) -> Seq<char> {
    if elements.len() == 0 {
        seq!['-']
    } else {
        elements_text(elements)
    }
}

/// The parameters of one element: names with their values, in the order in
/// which the names first came.
#[derive(Clone, Debug)]
pub struct SdParams {
    entries: Vec<(String, String)>,
}

/// Structured data: SD-IDs with their parameters, in the order in which the
/// SD-IDs first came.
#[derive(Clone, Debug)]
pub struct StructuredData {
    elements: Vec<(String, SdParams)>,
}

impl View for SdParams {
    type V = Seq<(Seq<char>, Seq<char>)>;

    closed spec fn view(&self) -> Self::V {
        self.entries@.map_values(|e: (String, String)| (e.0@, e.1@))
    }
}

impl View for StructuredData {
    type V = Seq<(Seq<char>, Seq<(Seq<char>, Seq<char>)>)>;

    closed spec fn view(&self) -> Self::V {
        self.elements@.map_values(|e: (String, SdParams)| (e.0@, e.1@))
    }
}

/// The first place of `key` among the entries, or their number where it
/// has none.
fn find_key<V>(entries: &Vec<(String, V)>, key: &String) -> (at: usize)
    ensures
        at <= entries.len(),
        at < entries.len() ==> entries[at as int].0@ == key@,
        forall|j: int| 0 <= j < at ==> (#[trigger] entries[j]).0@ != key@,
{
    let mut i: usize = 0;
    while i < entries.len()
        invariant
            i <= entries.len(),
            forall|j: int| 0 <= j < i ==> (#[trigger] entries[j]).0@ != key@,
        decreases entries.len() - i,
    {
        if entries[i].0 == *key {
            return i;
        }
        i = i + 1;
    }
    i
}

impl SdParams {
    /// No name occurs twice.
    pub open spec fn wf(&self) -> bool {
        keys_distinct(self@)
    }

    /// No parameters.
    pub fn new() -> (p: Self)
        ensures
            p@ == Seq::<(Seq<char>, Seq<char>)>::empty(),
            p.wf(),
    {
        let p = SdParams { entries: Vec::new() };
        assert(p@ =~= Seq::empty());
        p
    }

    /// The number of parameters.
    pub fn len(&self) -> (n: usize)
        ensures
            n == self@.len(),
    {
        self.entries.len()
    }

    /// Whether there is no parameter.
    pub fn is_empty(&self) -> (b: bool)
        ensures
            b == (self@.len() == 0),
    {
        self.entries.len() == 0
    }

    /// Gives `name` the value `value`. A name that is there already keeps
    /// its place and gets the new value, and its old value is returned; a
    /// new name goes to the end.
    pub fn insert(&mut self, name: String, value: String) -> (prior: Option<String>)
        ensures
            final(self)@ == put(old(self)@, name@, value@),
            old(self).wf() ==> final(self).wf(),
            match prior {
                Some(v) => get(old(self)@, name@) == Some(v@),
                None => get(old(self)@, name@) is None,
            },
    {
        proof {
            lemma_key_position(self@, name@);
            if self.wf() {
                lemma_put_keeps_keys_distinct(self@, name@, value@);
            }
        }
        let at = find_key(&self.entries, &name);
        proof {
            assert forall|j: int| 0 <= j < self@.len() implies (#[trigger] self@[j]).0
                == self.entries[j].0@ by {}
            lemma_key_position_is(self@, name@, at as int);
        }
        let ghost before = self@;
        if at < self.entries.len() {
            let old_entry = self.entries.remove(at);
            self.entries.insert(at, (name, value));
            proof {
                assert(self@ =~= before.update(at as int, (name@, value@)));
            }
            Some(old_entry.1)
        } else {
            self.entries.push((name, value));
            proof {
                assert(self@ =~= before.push((name@, value@)));
            }
            None
        }
    }
}

impl SdParams {
    /// Appends the text of the parameters to `out`.
    pub fn write_to(&self, out: &mut String)
        ensures
            final(out)@ == old(out)@ + params_text(self@),
    {
        let mut i: usize = 0;
        while i < self.entries.len()
            invariant
                i <= self.entries.len(),
                out@ == old(out)@ + params_text(self@.take(i as int)),
            decreases self.entries.len() - i,
        {
            proof {
                reveal_strlit(" ");
                reveal_strlit("=\"");
                reveal_strlit("\"");
                let upto = self@.take(i + 1);
                assert(upto.drop_last() == self@.take(i as int));
                assert(upto.last() == (self.entries[i as int].0@, self.entries[i as int].1@));
            }
            out.append(" ");
            out.append(self.entries[i].0.as_str());
            out.append("=\"");
            out.append(self.entries[i].1.as_str());
            out.append("\"");
            i = i + 1;
        }
        proof {
            assert(self@.take(i as int) == self@);
        }
    }
}

impl StructuredData {
    /// No SD-ID occurs twice, and within an element no name does.
    pub open spec fn wf(&self) -> bool {
        &&& keys_distinct(self@)
        &&& forall|i: int| 0 <= i < self@.len() ==> keys_distinct((#[trigger] self@[i]).1)
    }

    /// No elements.
    pub fn new() -> (d: Self)
        ensures
            d@ == Seq::<(Seq<char>, Seq<(Seq<char>, Seq<char>)>)>::empty(),
            d.wf(),
    {
        let d = StructuredData { elements: Vec::new() };
        assert(d@ =~= Seq::empty());
        d
    }

    /// The number of elements.
    pub fn len(&self) -> (n: usize)
        ensures
            n == self@.len(),
    {
        self.elements.len()
    }

    /// Whether there is no element.
    pub fn is_empty(&self) -> (b: bool)
        ensures
            b == (self@.len() == 0),
    {
        self.elements.len() == 0
    }

    /// Gives the SD-ID `id` the parameters `params`. An SD-ID that is there
    /// already keeps its place and gets the new parameters, and its old
    /// ones are returned; a new SD-ID goes to the end.
    pub fn insert(&mut self, id: String, params: SdParams) -> (prior: Option<SdParams>)
        ensures
            final(self)@ == put(old(self)@, id@, params@),
            old(self).wf() && params.wf() ==> final(self).wf(),
            match prior {
                Some(p) => get(old(self)@, id@) == Some(p@),
                None => get(old(self)@, id@) is None,
            },
    {
        proof {
            lemma_key_position(self@, id@);
            if self.wf() {
                lemma_put_keeps_keys_distinct(self@, id@, params@);
            }
        }
        let at = find_key(&self.elements, &id);
        proof {
            assert forall|j: int| 0 <= j < self@.len() implies (#[trigger] self@[j]).0
                == self.elements[j].0@ by {}
            lemma_key_position_is(self@, id@, at as int);
        }
        let ghost before = self@;
        if at < self.elements.len() {
            let old_entry = self.elements.remove(at);
            self.elements.insert(at, (id, params));
            proof {
                assert(self@ =~= before.update(at as int, (id@, params@)));
            }
            Some(old_entry.1)
        } else {
            self.elements.push((id, params));
            proof {
                assert(self@ =~= before.push((id@, params@)));
            }
            None
        }
    }

    /// Appends the texts of the elements to `out`.
    pub fn write_to(&self, out: &mut String)
        ensures
            final(out)@ == old(out)@ + elements_text(self@),
    {
        let mut i: usize = 0;
        while i < self.elements.len()
            invariant
                i <= self.elements.len(),
                out@ == old(out)@ + elements_text(self@.take(i as int)),
            decreases self.elements.len() - i,
        {
            proof {
                reveal_strlit("[");
                reveal_strlit("]");
                let upto = self@.take(i + 1);
                assert(upto.drop_last() == self@.take(i as int));
                assert(upto.last() == (self.elements[i as int].0@, self.elements[i as int].1@));
            }
            out.append("[");
            out.append(self.elements[i].0.as_str());
            self.elements[i].1.write_to(out);
            out.append("]");
            i = i + 1;
        }
        proof {
            assert(self@.take(i as int) == self@);
        }
    }

    /// The STRUCTURED-DATA field for these elements.
    pub fn encode(&self) -> (out: String)
        ensures
            out@ == structured_data_text(self@),
    {
        let mut out = String::new();
        if self.elements.len() == 0 {
            proof {
                reveal_strlit("-");
            }
            out.append("-");
        } else {
            self.write_to(&mut out);
        }
        out
    }
}

/// The text of a list of parameters in two parts is the text of the first
/// part followed by the text of the second: every parameter is written
/// once, at its place.
pub proof fn lemma_params_text_concat(
    first: Seq<(Seq<char>, Seq<char>)>,
    second: Seq<(Seq<char>, Seq<char>)>,
)
    ensures
        params_text(first + second) == params_text(first) + params_text(second),
    decreases second.len(),
{
    if second.len() == 0 {
        assert(first + second == first);
    } else {
        lemma_params_text_concat(first, second.drop_last());
        assert((first + second).drop_last() == first + second.drop_last());
        assert((first + second).last() == second.last());
    }
}

/// The text of a list of elements in two parts is the text of the first
/// part followed by the text of the second: every element is written once,
/// at its place.
pub proof fn lemma_elements_text_concat(
    first: Seq<(Seq<char>, Seq<(Seq<char>, Seq<char>)>)>,
    second: Seq<(Seq<char>, Seq<(Seq<char>, Seq<char>)>)>,
)
    ensures
        elements_text(first + second) == elements_text(first) + elements_text(second),
    decreases second.len(),
{
    if second.len() == 0 {
        assert(first + second == first);
    } else {
        lemma_elements_text_concat(first, second.drop_last());
        assert((first + second).drop_last() == first + second.drop_last());
        assert((first + second).last() == second.last());
    }
}

/// The field of a single element is that element's text.
pub proof fn lemma_single_element_text(id: Seq<char>, params: Seq<(Seq<char>, Seq<char>)>)
    ensures
        structured_data_text(seq![(id, params)]) == element_text(id, params),
{
    let one = seq![(id, params)];
    assert(one.drop_last() == Seq::<(Seq<char>, Seq<(Seq<char>, Seq<char>)>)>::empty());
    assert(elements_text(one.drop_last()) == Seq::<char>::empty());
}

/// The field is never empty: it is the hyphen, or it begins with `[` and
/// ends with `]`.
pub proof fn lemma_structured_data_text_shape(
    elements: Seq<(Seq<char>, Seq<(Seq<char>, Seq<char>)>)>,
)
    ensures
        structured_data_text(elements).len() >= 1,
        elements.len() == 0 <==> structured_data_text(elements) == seq!['-'],
        elements.len() > 0 ==> structured_data_text(elements).first() == '['
            && structured_data_text(elements).last() == ']',
    decreases elements.len(),
{
    if elements.len() > 0 {
        let front = elements.drop_last();
        let block = element_text(elements.last().0, elements.last().1);
        let text = elements_text(elements);
        assert(text == elements_text(front) + block);
        assert(block.len() >= 2);
        assert(block[0] == '[');
        assert(block[block.len() - 1] == ']');
        assert(text[text.len() - 1] == block[block.len() - 1]);
        if front.len() > 0 {
            lemma_structured_data_text_shape(front);
            assert(text[0] == elements_text(front)[0]);
        } else {
            assert(elements_text(front).len() == 0);
            assert(text[0] == block[0]);
        }
        assert(seq!['-'][0] == '-');
    }
}

} // verus!
