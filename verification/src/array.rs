//! Arrays of values of one type.

use vstd::prelude::*;
use crate::errors::{amended, Error, ErrorKind, ErrorView};
use crate::json::{views_of, Json, JsonView, size_json};
use crate::text::{int_text, usize_text};
use crate::types::{bad_value, json_result, new_members, push_member, push_size, push_type,
    size_range_error, size_range_message, type_member, unless_zero, TypeInfo, TypeLaws, is_zero};

verus! {

/// The note that says in which item an error was found.
pub open spec fn item_note(n: int) -> Seq<char> {
    "in item "@ + int_text(n)
}

/// An error with a note added to its message.
pub open spec fn amend_view(e: ErrorView, note: Seq<char>) -> ErrorView {
    ErrorView { kind: e.kind, message: amended(e.message, note) }
}

/// Adds to an error the note that says in which item it was found.
pub fn amend_item(e: Error, n: usize) -> (r: Error)
    ensures
        r@ == amend_view(e@, item_note(n as int)),
{
    let mut note = "in item ".to_string();
    note.append(usize_text(n).as_str());
    e.amend(note.as_str())
}

/// The items of a vector in reverse order.
pub fn reversed<T>(v: Vec<T>) -> (r: Vec<T>)
    ensures
        r@.len() == v@.len(),
        forall|k: int| 0 <= k < r@.len() ==> r@[k] == v@[v@.len() - 1 - k],
{
    let mut v = v;
    let ghost orig = v@;
    let mut r: Vec<T> = Vec::new();
    while v.len() > 0
        invariant
            r@.len() + v@.len() == orig.len(),
            forall|k: int| 0 <= k < v@.len() ==> v@[k] == orig[k],
            forall|k: int| 0 <= k < r@.len() ==> r@[k] == orig[orig.len() - 1 - k],
        decreases v@.len(),
    {
        let item = v.pop().unwrap();
        r.push(item);
    }
    r
}

/// Arrays of `minlen` to `maxlen` items of the type `members`.
pub struct ArrayOf<T: TypeInfo> {
    pub minlen: usize,
    pub maxlen: usize,
    pub members: T,
}

impl<T: TypeInfo> ArrayOf<T> {
    /// The encodings of the first `n` values, or the error of the first
    /// value among them that is refused, with the note of its place
    /// (counted from one).
    pub open spec fn encoded_prefix(&self, vals: Seq<<T::Repr as DeepView>::V>, n: int) -> Result<
        Seq<JsonView>,
        ErrorView,
    >
        decreases n,
    {
        if n <= 0 {
            Ok(Seq::empty())
        } else {
            match self.encoded_prefix(vals, n - 1) {
                Err(e) => Err(e),
                Ok(items) => match self.members.encoded(vals[n - 1]) {
                    Ok(j) => Ok(items.push(j)),
                    Err(e) => Err(amend_view(e, item_note(n))),
                },
            }
        }
    }

    /// The values of the first `n` items, or the error of the first item
    /// among them that is refused, with the note of its place (counted
    /// from one).
    pub open spec fn decoded_prefix(&self, items: Seq<JsonView>, n: int) -> Result<
        Seq<<T::Repr as DeepView>::V>,
        ErrorView,
    >
        decreases n,
    {
        if n <= 0 {
            Ok(Seq::empty())
        } else {
            match self.decoded_prefix(items, n - 1) {
                Err(e) => Err(e),
                Ok(vals) => match self.members.decoded(items[n - 1]) {
                    Ok(v) => Ok(vals.push(v)),
                    Err(e) => Err(amend_view(e, item_note(n))),
                },
            }
        }
    }

    /// Whether a length is within the bounds.
    pub open spec fn admits(&self, len: nat) -> bool {
        self.minlen <= len && len <= self.maxlen
    }

    /// An error among the first `n` values stays the error of any longer
    /// prefix.
    pub proof fn lemma_encoded_error_stays(
        &self,
        vals: Seq<<T::Repr as DeepView>::V>,
        n: int,
        m: int,
    )
        requires
            0 <= n <= m,
            self.encoded_prefix(vals, n) is Err,
        ensures
            self.encoded_prefix(vals, m) == self.encoded_prefix(vals, n),
        decreases m - n,
    {
        if n < m {
            self.lemma_encoded_error_stays(vals, n, m - 1);
        }
    }

    /// An error among the first `n` items stays the error of any longer
    /// prefix.
    pub proof fn lemma_decoded_error_stays(&self, items: Seq<JsonView>, n: int, m: int)
        requires
            0 <= n <= m,
            self.decoded_prefix(items, n) is Err,
        ensures
            self.decoded_prefix(items, m) == self.decoded_prefix(items, n),
        decreases m - n,
    {
        if n < m {
            self.lemma_decoded_error_stays(items, n, m - 1);
        }
    }

    /// What was encoded without error has one item per value, each the
    /// encoding of its value.
    pub proof fn lemma_encoded_items(&self, vals: Seq<<T::Repr as DeepView>::V>, n: int)
        requires
            0 <= n <= vals.len(),
            self.encoded_prefix(vals, n) is Ok,
        ensures
            self.encoded_prefix(vals, n)->Ok_0.len() == n,
            forall|k: int|
                0 <= k < n ==> self.members.encoded(vals[k]) == Ok::<JsonView, ErrorView>(
                    #[trigger] self.encoded_prefix(vals, n)->Ok_0[k],
                ),
        decreases n,
    {
        if n > 0 {
            self.lemma_encoded_items(vals, n - 1);
        }
    }

    /// Items that each decode to the value at their place decode, as a
    /// prefix, to the prefix of the values.
    pub proof fn lemma_decoded_prefix_of(
        &self,
        items: Seq<JsonView>,
        vals: Seq<<T::Repr as DeepView>::V>,
        n: int,
    )
        requires
            0 <= n <= items.len(),
            n <= vals.len(),
            forall|k: int|
                0 <= k < n ==> self.members.decoded(#[trigger] items[k]) == Ok::<
                    <T::Repr as DeepView>::V,
                    ErrorView,
                >(vals[k]),
        ensures
            self.decoded_prefix(items, n) == Ok::<Seq<<T::Repr as DeepView>::V>, ErrorView>(
                vals.subrange(0, n),
            ),
        decreases n,
    {
        if n > 0 {
            self.lemma_decoded_prefix_of(items, vals, n - 1);
            assert(vals.subrange(0, n - 1).push(vals[n - 1]) =~= vals.subrange(0, n));
        } else {
            assert(vals.subrange(0, 0) =~= Seq::<<T::Repr as DeepView>::V>::empty());
        }
    }
}

impl<T: TypeInfo> TypeInfo for ArrayOf<T> {
    type Repr = Vec<T::Repr>;

    open spec fn datainfo(&self) -> JsonView {
        JsonView::Object(
            seq![type_member("array"@)] + unless_zero("minlen"@, self.minlen as nat) + seq![
                ("maxlen"@, size_json(self.maxlen as nat)),
                ("members"@, self.members.datainfo()),
            ],
        )
    }

    open spec fn encoded(&self, val: Seq<<T::Repr as DeepView>::V>) -> Result<
        JsonView,
        ErrorView,
    > {
        if self.admits(val.len()) {
            match self.encoded_prefix(val, val.len() as int) {
                Ok(items) => Ok(JsonView::Array(items)),
                Err(e) => Err(e),
            }
        } else {
            Err(
                bad_value(
                    size_range_message(
                        "expected vector with length between "@,
                        self.minlen,
                        self.maxlen,
                    ),
                ),
            )
        }
    }

    open spec fn decoded(&self, val: JsonView) -> Result<Seq<<T::Repr as DeepView>::V>, ErrorView> {
        match val {
            JsonView::Array(items) if self.admits(items.len()) => self.decoded_prefix(
                items,
                items.len() as int,
            ),
            _ => Err(
                bad_value(
                    size_range_message(
                        "expected array with length between "@,
                        self.minlen,
                        self.maxlen,
                    ),
                ),
            ),
        }
    }

    open spec fn faithful(&self, val: Seq<<T::Repr as DeepView>::V>) -> bool {
        forall|k: int| 0 <= k < val.len() ==> self.members.faithful(#[trigger] val[k])
    }

    fn describe(&self) -> (r: Json) {
        let mut members = new_members();
        push_type(&mut members, "array");
        if !is_zero(&self.minlen) {
            push_size(&mut members, "minlen", self.minlen);
        }
        push_size(&mut members, "maxlen", self.maxlen);
        push_member(&mut members, "members", self.members.describe());
        let r = Json::object(members);
        assert(r@->Object_0 =~= self.datainfo()->Object_0);
        r
    }

    #[verifier::loop_isolation(false)]
    fn to_json(&self, val: Vec<T::Repr>) -> (r: Result<Json, Error>) {
        let ghost vals = val.deep_view();
        let n: usize = val.len();
        if n >= self.minlen && n <= self.maxlen {
            let ghost orig = val@;
            let mut rest = reversed(val);
            let mut out: Vec<Json> = Vec::new();
            let mut i: usize = 0;
            assert(views_of(out@) =~= Seq::<JsonView>::empty());
            while i < n
                invariant
                    i <= n,
                    n == orig.len(),
                    vals.len() == n,
                    forall|k: int| 0 <= k < n ==> vals[k] == (#[trigger] orig[k]).deep_view(),
                    rest@.len() == n - i,
                    forall|k: int| 0 <= k < rest@.len() ==> rest@[k] == orig[n - 1 - k],
                    self.encoded_prefix(vals, i as int) == Ok::<Seq<JsonView>, ErrorView>(
                        views_of(out@),
                    ),
                decreases n - i,
            {
                let item = rest.pop().unwrap();
                assert(item == orig[i as int]);
                assert(vals[i as int] == item.deep_view());
                let ghost before = out@;
                match self.members.to_json(item) {
                    Ok(j) => {
                        out.push(j);
                        assert(views_of(out@) =~= views_of(before).push(j@));
                    },
                    Err(e) => {
                        proof {
                            assert(self.encoded_prefix(vals, i + 1) == Err::<
                                Seq<JsonView>,
                                ErrorView,
                            >(amend_view(e@, item_note(i + 1))));
                            self.lemma_encoded_error_stays(vals, i + 1, n as int);
                        }
                        return Err(amend_item(e, i + 1));
                    },
                }
                i += 1;
            }
            Ok(Json::array(out))
        } else {
            Err(size_range_error("expected vector with length between ", self.minlen, self.maxlen))
        }
    }

    #[verifier::loop_isolation(false)]
    fn from_json(&self, val: &Json) -> (r: Result<Vec<T::Repr>, Error>) {
        match val.as_array() {
            Some(arr) => {
                let n: usize = arr.len();
                if n >= self.minlen && n <= self.maxlen {
                    let ghost items = views_of(arr@);
                    let mut out: Vec<T::Repr> = Vec::new();
                    let mut i: usize = 0;
                    assert(out.deep_view() =~= Seq::<<T::Repr as DeepView>::V>::empty());
                    while i < n
                        invariant
                            i <= n,
                            n == arr@.len(),
                            items == views_of(arr@),
                            self.decoded_prefix(items, i as int) == Ok::<
                                Seq<<T::Repr as DeepView>::V>,
                                ErrorView,
                            >(out.deep_view()),
                        decreases n - i,
                    {
                        let ghost before = out.deep_view();
                        match self.members.from_json(&arr[i]) {
                            Ok(v) => {
                                out.push(v);
                                assert(out.deep_view() =~= before.push(v.deep_view()));
                            },
                            Err(e) => {
                                proof {
                                    assert(self.decoded_prefix(items, i + 1) == Err::<
                                        Seq<<T::Repr as DeepView>::V>,
                                        ErrorView,
                                    >(amend_view(e@, item_note(i + 1))));
                                    self.lemma_decoded_error_stays(items, i + 1, n as int);
                                }
                                return Err(amend_item(e, i + 1));
                            },
                        }
                        i += 1;
                    }
                    Ok(out)
                } else {
                    Err(
                        size_range_error(
                            "expected array with length between ",
                            self.minlen,
                            self.maxlen,
                        ),
                    )
                }
            },
            None => Err(
                size_range_error("expected array with length between ", self.minlen, self.maxlen),
            ),
        }
    }
}

impl<T: TypeLaws> ArrayOf<T> {
    /// An error of a prefix is a bad value.
    pub proof fn lemma_encoded_prefix_error(&self, vals: Seq<<T::Repr as DeepView>::V>, n: int)
        ensures
            self.encoded_prefix(vals, n) is Err ==> self.encoded_prefix(vals, n)->Err_0.kind
                == ErrorKind::BadValue,
        decreases n,
    {
        if n > 0 {
            self.lemma_encoded_prefix_error(vals, n - 1);
            self.members.lemma_encode_error(vals[n - 1]);
        }
    }

    /// An error of a prefix is a bad value.
    pub proof fn lemma_decoded_prefix_error(&self, items: Seq<JsonView>, n: int)
        ensures
            self.decoded_prefix(items, n) is Err ==> self.decoded_prefix(items, n)->Err_0.kind
                == ErrorKind::BadValue,
        decreases n,
    {
        if n > 0 {
            self.lemma_decoded_prefix_error(items, n - 1);
            self.members.lemma_decode_error(items[n - 1]);
        }
    }
}

impl<T: TypeLaws> TypeLaws for ArrayOf<T> {
    proof fn lemma_decode_encode(&self, val: Seq<<T::Repr as DeepView>::V>) {
        let n = val.len() as int;
        let items = self.encoded_prefix(val, n)->Ok_0;
        self.lemma_encoded_items(val, n);
        assert forall|k: int| 0 <= k < n implies self.members.decoded(#[trigger] items[k]) == Ok::<
            <T::Repr as DeepView>::V,
            ErrorView,
        >(val[k]) by {
            assert(self.members.faithful(val[k]));
            self.members.lemma_decode_encode(val[k]);
        }
        self.lemma_decoded_prefix_of(items, val, n);
        assert(val.subrange(0, n) =~= val);
    }

    proof fn lemma_encode_error(&self, val: Seq<<T::Repr as DeepView>::V>) {
        if self.admits(val.len()) {
            self.lemma_encoded_prefix_error(val, val.len() as int);
        }
    }

    proof fn lemma_decode_error(&self, val: JsonView) {
        match val {
            JsonView::Array(items) => {
                if self.admits(items.len()) {
                    self.lemma_decoded_prefix_error(items, items.len() as int);
                }
            },
            _ => {},
        }
    }
}

} // verus!
