//! Structs: JSON objects whose members each have a name and a type of
//! their own.  The members of a struct type are a list that is built from
//! `Required` and `Optional`, each of which holds one member and the rest
//! of the list, and ends in `NoMembers`.

use vstd::prelude::*;
use crate::array::amend_view;
use crate::errors::{Error, ErrorKind, ErrorView};
use crate::json::{get_member, key_position, lemma_key_position, lemma_key_position_is, lookup,
    member_views_of, Json, JsonView};
use crate::types::{bad_value, json_result, new_members, push_member, push_type, type_member,
    TypeInfo, TypeLaws};

verus! {

/// The note that says in which member an error was found.
pub open spec fn member_note(name: Seq<char>) -> Seq<char> {
    "in "@ + name
}

/// The message that refuses an object without a mandatory member.
pub open spec fn missing_message(name: Seq<char>) -> Seq<char> {
    "missing "@ + name + " in object"@
}

fn amend_member(e: Error, name: &String) -> (r: Error)
    ensures
        r@ == amend_view(e@, member_note(name@)),
{
    let mut note = "in ".to_string();
    note.append(name.as_str());
    e.amend(note.as_str())
}

fn missing_error(name: &String) -> (r: Error)
    ensures
        r@ == bad_value(missing_message(name@)),
{
    let mut message = "missing ".to_string();
    message.append(name.as_str());
    message.append(" in object");
    Error::new_owned(ErrorKind::BadValue, message)
}

/// Whether a key is among the given names.
pub open spec fn names_have(names: Seq<Seq<char>>, key: Seq<char>) -> bool {
    exists|i: int| 0 <= i < names.len() && #[trigger] names[i] == key
}

/// The members of a struct type.
pub trait Members {
    type Repr: DeepView;

    /// The names of the members, in order.
    open spec fn names(&self) -> Seq<Seq<char>> {
        arbitrary()
    }

    /// The description of each member's type, by name.
    open spec fn infos(&self) -> Seq<(Seq<char>, JsonView)> {
        arbitrary()
    }

    /// The members of the object for a value, or the error of the first
    /// member that is refused.
    open spec fn encoded_members(&self, val: <Self::Repr as DeepView>::V) -> Result<
        Seq<(Seq<char>, JsonView)>,
        ErrorView,
    > {
        arbitrary()
    }

    /// The value for the members of an object, or the error of the first
    /// member that is missing or refused.
    open spec fn decoded_members(&self, obj: Seq<(Seq<char>, JsonView)>) -> Result<
        <Self::Repr as DeepView>::V,
        ErrorView,
    > {
        arbitrary()
    }

    /// Holds of a value whose members are each encoded faithfully.
    open spec fn faithful_members(&self, val: <Self::Repr as DeepView>::V) -> bool {
        arbitrary()
    }

    /// No two members have the same name.
    open spec fn distinct(&self) -> bool {
        arbitrary()
    }

    /// Adds the descriptions of the members to `out`.
    fn describe_members(&self, out: &mut Vec<(String, Json)>)
        ensures
            member_views_of(final(out)@) == member_views_of(old(out)@) + self.infos(),
    ;

    /// Adds the members of the object for a value to `out`.
    fn encode_members(&self, val: Self::Repr, out: &mut Vec<(String, Json)>) -> (r: Result<
        (),
        Error,
    >)
        ensures
            match r {
                Ok(_) => self.encoded_members(val.deep_view()) is Ok && member_views_of(
                    final(out)@,
                ) == member_views_of(old(out)@) + self.encoded_members(val.deep_view())->Ok_0,
                Err(e) => self.encoded_members(val.deep_view()) == Err::<
                    Seq<(Seq<char>, JsonView)>,
                    ErrorView,
                >(e@),
            },
    ;

    /// Reads the value from the members of an object.
    fn decode_members(&self, obj: &Vec<(String, Json)>) -> (r: Result<Self::Repr, Error>)
        ensures
            match r {
                Ok(v) => self.decoded_members(member_views_of(obj@)) == Ok::<
                    <Self::Repr as DeepView>::V,
                    ErrorView,
                >(v.deep_view()),
                Err(e) => self.decoded_members(member_views_of(obj@)) == Err::<
                    <Self::Repr as DeepView>::V,
                    ErrorView,
                >(e@),
            },
    ;
}

/// The laws of a list of members.
pub trait MemberLaws: Members {
    /// What is encoded has keys among the names of the members only.
    proof fn lemma_encoded_keys(&self, val: <Self::Repr as DeepView>::V)
        ensures
            self.encoded_members(val) is Ok ==> forall|i: int|
                0 <= i < self.encoded_members(val)->Ok_0.len() ==> names_have(
                    self.names(),
                    (#[trigger] self.encoded_members(val)->Ok_0[i]).0,
                ),
    ;

    /// Decoding undoes encoding, also where the object has other members
    /// in front, none of which has the name of a member.
    proof fn lemma_members_decode_encode(
        &self,
        val: <Self::Repr as DeepView>::V,
        front: Seq<(Seq<char>, JsonView)>,
    )
        requires
            self.encoded_members(val) is Ok,
            self.faithful_members(val),
            self.distinct(),
            forall|i: int| 0 <= i < front.len() ==> !names_have(self.names(), (#[trigger] front[i]).0),
        ensures
            self.decoded_members(front + self.encoded_members(val)->Ok_0) == Ok::<
                <Self::Repr as DeepView>::V,
                ErrorView,
            >(val),
    ;

    /// Every refusal is a bad value.
    proof fn lemma_members_errors(
        &self,
        val: <Self::Repr as DeepView>::V,
        obj: Seq<(Seq<char>, JsonView)>,
    )
        ensures
            self.encoded_members(val) is Err ==> self.encoded_members(val)->Err_0.kind
                == ErrorKind::BadValue,
            self.decoded_members(obj) is Err ==> self.decoded_members(obj)->Err_0.kind
                == ErrorKind::BadValue,
    ;
}

/// The end of a list of members.
pub struct NoMembers;

impl Members for NoMembers {
    type Repr = ();

    open spec fn names(&self) -> Seq<Seq<char>> {
        Seq::empty()
    }

    open spec fn infos(&self) -> Seq<(Seq<char>, JsonView)> {
        Seq::empty()
    }

    open spec fn encoded_members(&self, val: ()) -> Result<Seq<(Seq<char>, JsonView)>, ErrorView> {
        Ok(Seq::empty())
    }

    open spec fn decoded_members(&self, obj: Seq<(Seq<char>, JsonView)>) -> Result<(), ErrorView> {
        Ok(())
    }

    open spec fn faithful_members(&self, val: ()) -> bool {
        true
    }

    open spec fn distinct(&self) -> bool {
        true
    }

    fn describe_members(&self, out: &mut Vec<(String, Json)>) {
        assert(member_views_of(out@) + self.infos() =~= member_views_of(out@));
    }

    fn encode_members(&self, val: (), out: &mut Vec<(String, Json)>) -> (r: Result<(), Error>) {
        assert(member_views_of(out@) + Seq::<(Seq<char>, JsonView)>::empty() =~= member_views_of(
            out@,
        ));
        Ok(())
    }

    fn decode_members(&self, obj: &Vec<(String, Json)>) -> (r: Result<(), Error>) {
        Ok(())
    }
}

impl MemberLaws for NoMembers {
    proof fn lemma_encoded_keys(&self, val: ()) {
    }

    proof fn lemma_members_decode_encode(&self, val: (), front: Seq<(Seq<char>, JsonView)>) {
    }

    proof fn lemma_members_errors(&self, val: (), obj: Seq<(Seq<char>, JsonView)>) {
    }
}

/// A member that every object must have, and the members after it.
pub struct Required<T: TypeInfo, R: Members> {
    pub name: String,
    pub info: T,
    pub rest: R,
}

/// A member that an object may lack, and the members after it.
pub struct Optional<T: TypeInfo, R: Members> {
    pub name: String,
    pub info: T,
    pub rest: R,
}

/// What is at `at` in `front + seq![entry] + rest` is found under the key
/// of `entry` where no member of `front` has that key.
proof fn lemma_lookup_entry(
    front: Seq<(Seq<char>, JsonView)>,
    entry: (Seq<char>, JsonView),
    rest: Seq<(Seq<char>, JsonView)>,
)
    requires
        forall|i: int| 0 <= i < front.len() ==> (#[trigger] front[i]).0 != entry.0,
    ensures
        lookup(front + (seq![entry] + rest), entry.0) == Some(entry.1),
{
    let all = front + (seq![entry] + rest);
    assert(all[front.len() as int] == entry);
    assert(forall|k: int| 0 <= k < front.len() ==> all[k] == front[k]);
    lemma_key_position_is(all, entry.0, 0, front.len() as int);
}

/// Nothing is found under a key that no member has.
proof fn lemma_lookup_absent(all: Seq<(Seq<char>, JsonView)>, key: Seq<char>)
    requires
        forall|i: int| 0 <= i < all.len() ==> (#[trigger] all[i]).0 != key,
    ensures
        lookup(all, key) is None,
{
    lemma_key_position_is(all, key, 0, all.len() as int);
}

impl<T: TypeInfo, R: Members> Members for Required<T, R> {
    type Repr = (T::Repr, R::Repr);

    open spec fn names(&self) -> Seq<Seq<char>> {
        seq![self.name@] + self.rest.names()
    }

    open spec fn infos(&self) -> Seq<(Seq<char>, JsonView)> {
        seq![(self.name@, self.info.datainfo())] + self.rest.infos()
    }

    open spec fn encoded_members(
        &self,
        val: (<T::Repr as DeepView>::V, <R::Repr as DeepView>::V),
    ) -> Result<Seq<(Seq<char>, JsonView)>, ErrorView> {
        match self.info.encoded(val.0) {
            Err(e) => Err(amend_view(e, member_note(self.name@))),
            Ok(j) => match self.rest.encoded_members(val.1) {
                Err(e) => Err(e),
                Ok(entries) => Ok(seq![(self.name@, j)] + entries),
            },
        }
    }

    open spec fn decoded_members(&self, obj: Seq<(Seq<char>, JsonView)>) -> Result<
        (<T::Repr as DeepView>::V, <R::Repr as DeepView>::V),
        ErrorView,
    > {
        match lookup(obj, self.name@) {
            None => Err(bad_value(missing_message(self.name@))),
            Some(j) => match self.info.decoded(j) {
                Err(e) => Err(amend_view(e, member_note(self.name@))),
                Ok(v) => match self.rest.decoded_members(obj) {
                    Err(e) => Err(e),
                    Ok(others) => Ok((v, others)),
                },
            },
        }
    }

    open spec fn faithful_members(
        &self,
        val: (<T::Repr as DeepView>::V, <R::Repr as DeepView>::V),
    ) -> bool {
        self.info.faithful(val.0) && self.rest.faithful_members(val.1)
    }

    open spec fn distinct(&self) -> bool {
        !names_have(self.rest.names(), self.name@) && self.rest.distinct()
    }

    fn describe_members(&self, out: &mut Vec<(String, Json)>) {
        let ghost before = member_views_of(out@);
        out.push((self.name.clone(), self.info.describe()));
        assert(member_views_of(out@) =~= before + seq![(self.name@, self.info.datainfo())]);
        self.rest.describe_members(out);
        assert(before + seq![(self.name@, self.info.datainfo())] + self.rest.infos() =~= before
            + self.infos());
    }

    fn encode_members(&self, val: (T::Repr, R::Repr), out: &mut Vec<(String, Json)>) -> (r: Result<
        (),
        Error,
    >) {
        let ghost before = member_views_of(out@);
        let (first, others) = val;
        match self.info.to_json(first) {
            Err(e) => Err(amend_member(e, &self.name)),
            Ok(j) => {
                out.push((self.name.clone(), j));
                assert(member_views_of(out@) =~= before + seq![(self.name@, j@)]);
                match self.rest.encode_members(others, out) {
                    Err(e) => Err(e),
                    Ok(_) => {
                        assert(before + seq![(self.name@, j@)] + self.rest.encoded_members(
                            others.deep_view(),
                        )->Ok_0 =~= before + (seq![(self.name@, j@)] + self.rest.encoded_members(
                            others.deep_view(),
                        )->Ok_0));
                        Ok(())
                    },
                }
            },
        }
    }

    fn decode_members(&self, obj: &Vec<(String, Json)>) -> (r: Result<(T::Repr, R::Repr), Error>) {
        match get_member(obj, self.name.as_str()) {
            None => Err(missing_error(&self.name)),
            Some(j) => match self.info.from_json(j) {
                Err(e) => Err(amend_member(e, &self.name)),
                Ok(v) => match self.rest.decode_members(obj) {
                    Err(e) => Err(e),
                    Ok(others) => Ok((v, others)),
                },
            },
        }
    }
}

impl<T: TypeLaws, R: MemberLaws> MemberLaws for Required<T, R> {
    proof fn lemma_encoded_keys(
        &self,
        val: (<T::Repr as DeepView>::V, <R::Repr as DeepView>::V),
    ) {
        if self.encoded_members(val) is Ok {
            self.rest.lemma_encoded_keys(val.1);
            let entries = self.encoded_members(val)->Ok_0;
            let others = self.rest.encoded_members(val.1)->Ok_0;
            assert forall|i: int| 0 <= i < entries.len() implies names_have(
                self.names(),
                (#[trigger] entries[i]).0,
            ) by {
                if i == 0 {
                    assert(self.names()[0] == self.name@);
                } else {
                    assert(entries[i] == others[i - 1]);
                    let k = choose|k: int|
                        0 <= k < self.rest.names().len() && self.rest.names()[k] == others[i
                            - 1].0;
                    assert(self.names()[k + 1] == others[i - 1].0);
                }
            }
        }
    }

    proof fn lemma_members_decode_encode(
        &self,
        val: (<T::Repr as DeepView>::V, <R::Repr as DeepView>::V),
        front: Seq<(Seq<char>, JsonView)>,
    ) {
        let j = self.info.encoded(val.0)->Ok_0;
        let others = self.rest.encoded_members(val.1)->Ok_0;
        let entry = (self.name@, j);
        let obj = front + self.encoded_members(val)->Ok_0;
        assert forall|i: int| 0 <= i < front.len() implies (#[trigger] front[i]).0
            != self.name@ by {
            assert(self.names()[0] == self.name@);
        }
        lemma_lookup_entry(front, entry, others);
        self.info.lemma_decode_encode(val.0);
        let longer = front.push(entry);
        assert forall|i: int| 0 <= i < longer.len() implies !names_have(
            self.rest.names(),
            (#[trigger] longer[i]).0,
        ) by {
            if i < front.len() {
                assert(longer[i] == front[i]);
                if names_have(self.rest.names(), front[i].0) {
                    let k = choose|k: int|
                        0 <= k < self.rest.names().len() && self.rest.names()[k] == front[i].0;
                    assert(self.names()[k + 1] == front[i].0);
                }
            }
        }
        self.rest.lemma_members_decode_encode(val.1, longer);
        assert(longer + others =~= obj);
    }

    proof fn lemma_members_errors(
        &self,
        val: (<T::Repr as DeepView>::V, <R::Repr as DeepView>::V),
        obj: Seq<(Seq<char>, JsonView)>,
    ) {
        self.info.lemma_encode_error(val.0);
        self.rest.lemma_members_errors(val.1, obj);
        match lookup(obj, self.name@) {
            Some(j) => {
                self.info.lemma_decode_error(j);
            },
            None => {},
        }
    }
}

impl<T: TypeInfo, R: Members> Members for Optional<T, R> {
    type Repr = (Option<T::Repr>, R::Repr);

    open spec fn names(&self) -> Seq<Seq<char>> {
        seq![self.name@] + self.rest.names()
    }

    open spec fn infos(&self) -> Seq<(Seq<char>, JsonView)> {
        seq![(self.name@, self.info.datainfo())] + self.rest.infos()
    }

    open spec fn encoded_members(
        &self,
        val: (Option<<T::Repr as DeepView>::V>, <R::Repr as DeepView>::V),
    ) -> Result<Seq<(Seq<char>, JsonView)>, ErrorView> {
        match val.0 {
            None => self.rest.encoded_members(val.1),
            Some(first) => match self.info.encoded(first) {
                Err(e) => Err(amend_view(e, member_note(self.name@))),
                Ok(j) => match self.rest.encoded_members(val.1) {
                    Err(e) => Err(e),
                    Ok(entries) => Ok(seq![(self.name@, j)] + entries),
                },
            },
        }
    }

    open spec fn decoded_members(&self, obj: Seq<(Seq<char>, JsonView)>) -> Result<
        (Option<<T::Repr as DeepView>::V>, <R::Repr as DeepView>::V),
        ErrorView,
    > {
        match lookup(obj, self.name@) {
            None => match self.rest.decoded_members(obj) {
                Err(e) => Err(e),
                Ok(others) => Ok((None, others)),
            },
            Some(j) => match self.info.decoded(j) {
                Err(e) => Err(amend_view(e, member_note(self.name@))),
                Ok(v) => match self.rest.decoded_members(obj) {
                    Err(e) => Err(e),
                    Ok(others) => Ok((Some(v), others)),
                },
            },
        }
    }

    open spec fn faithful_members(
        &self,
        val: (Option<<T::Repr as DeepView>::V>, <R::Repr as DeepView>::V),
    ) -> bool {
        (match val.0 {
            Some(first) => self.info.faithful(first),
            None => true,
        }) && self.rest.faithful_members(val.1)
    }

    open spec fn distinct(&self) -> bool {
        !names_have(self.rest.names(), self.name@) && self.rest.distinct()
    }

    fn describe_members(&self, out: &mut Vec<(String, Json)>) {
        let ghost before = member_views_of(out@);
        out.push((self.name.clone(), self.info.describe()));
        assert(member_views_of(out@) =~= before + seq![(self.name@, self.info.datainfo())]);
        self.rest.describe_members(out);
        assert(before + seq![(self.name@, self.info.datainfo())] + self.rest.infos() =~= before
            + self.infos());
    }

    fn encode_members(&self, val: (Option<T::Repr>, R::Repr), out: &mut Vec<(String, Json)>) -> (r:
        Result<(), Error>) {
        let ghost before = member_views_of(out@);
        let (first, others) = val;
        match first {
            None => self.rest.encode_members(others, out),
            Some(first) => match self.info.to_json(first) {
                Err(e) => Err(amend_member(e, &self.name)),
                Ok(j) => {
                    out.push((self.name.clone(), j));
                    assert(member_views_of(out@) =~= before + seq![(self.name@, j@)]);
                    match self.rest.encode_members(others, out) {
                        Err(e) => Err(e),
                        Ok(_) => {
                            assert(before + seq![(self.name@, j@)] + self.rest.encoded_members(
                                others.deep_view(),
                            )->Ok_0 =~= before + (seq![(self.name@, j@)]
                                + self.rest.encoded_members(others.deep_view())->Ok_0));
                            Ok(())
                        },
                    }
                },
            },
        }
    }

    fn decode_members(&self, obj: &Vec<(String, Json)>) -> (r: Result<
        (Option<T::Repr>, R::Repr),
        Error,
    >) {
        match get_member(obj, self.name.as_str()) {
            None => match self.rest.decode_members(obj) {
                Err(e) => Err(e),
                Ok(others) => Ok((None, others)),
            },
            Some(j) => match self.info.from_json(j) {
                Err(e) => Err(amend_member(e, &self.name)),
                Ok(v) => match self.rest.decode_members(obj) {
                    Err(e) => Err(e),
                    Ok(others) => Ok((Some(v), others)),
                },
            },
        }
    }
}

impl<T: TypeLaws, R: MemberLaws> MemberLaws for Optional<T, R> {
    proof fn lemma_encoded_keys(
        &self,
        val: (Option<<T::Repr as DeepView>::V>, <R::Repr as DeepView>::V),
    ) {
        if self.encoded_members(val) is Ok {
            self.rest.lemma_encoded_keys(val.1);
            let entries = self.encoded_members(val)->Ok_0;
            let others = self.rest.encoded_members(val.1)->Ok_0;
            assert forall|i: int| 0 <= i < entries.len() implies names_have(
                self.names(),
                (#[trigger] entries[i]).0,
            ) by {
                if val.0 is Some && i == 0 {
                    assert(self.names()[0] == self.name@);
                } else {
                    let at = if val.0 is Some {
                        i - 1
                    } else {
                        i
                    };
                    assert(entries[i] == others[at]);
                    let k = choose|k: int|
                        0 <= k < self.rest.names().len() && self.rest.names()[k] == others[at].0;
                    assert(self.names()[k + 1] == others[at].0);
                }
            }
        }
    }

    proof fn lemma_members_decode_encode(
        &self,
        val: (Option<<T::Repr as DeepView>::V>, <R::Repr as DeepView>::V),
        front: Seq<(Seq<char>, JsonView)>,
    ) {
        let others = self.rest.encoded_members(val.1)->Ok_0;
        let obj = front + self.encoded_members(val)->Ok_0;
        assert forall|i: int| 0 <= i < front.len() implies (#[trigger] front[i]).0
            != self.name@ by {
            assert(self.names()[0] == self.name@);
        }
        assert forall|i: int| 0 <= i < front.len() implies !names_have(
            self.rest.names(),
            (#[trigger] front[i]).0,
        ) by {
            if names_have(self.rest.names(), front[i].0) {
                let k = choose|k: int|
                    0 <= k < self.rest.names().len() && self.rest.names()[k] == front[i].0;
                assert(self.names()[k + 1] == front[i].0);
            }
        }
        match val.0 {
            None => {
                self.rest.lemma_encoded_keys(val.1);
                assert forall|i: int| 0 <= i < obj.len() implies (#[trigger] obj[i]).0
                    != self.name@ by {
                    if i < front.len() {
                        assert(obj[i] == front[i]);
                    } else {
                        assert(obj[i] == others[i - front.len()]);
                    }
                }
                lemma_lookup_absent(obj, self.name@);
                self.rest.lemma_members_decode_encode(val.1, front);
            },
            Some(first) => {
                let j = self.info.encoded(first)->Ok_0;
                let entry = (self.name@, j);
                lemma_lookup_entry(front, entry, others);
                self.info.lemma_decode_encode(first);
                let longer = front.push(entry);
                assert forall|i: int| 0 <= i < longer.len() implies !names_have(
                    self.rest.names(),
                    (#[trigger] longer[i]).0,
                ) by {
                    if i < front.len() {
                        assert(longer[i] == front[i]);
                    }
                }
                self.rest.lemma_members_decode_encode(val.1, longer);
                assert(longer + others =~= obj);
            },
        }
    }

    proof fn lemma_members_errors(
        &self,
        val: (Option<<T::Repr as DeepView>::V>, <R::Repr as DeepView>::V),
        obj: Seq<(Seq<char>, JsonView)>,
    ) {
        match val.0 {
            Some(first) => {
                self.info.lemma_encode_error(first);
            },
            None => {},
        }
        self.rest.lemma_members_errors(val.1, obj);
        match lookup(obj, self.name@) {
            Some(j) => {
                self.info.lemma_decode_error(j);
            },
            None => {},
        }
    }
}

/// A struct type with the given members.
pub struct Struct<M: Members> {
    pub members: M,
}

impl<M: Members> TypeInfo for Struct<M> {
    type Repr = M::Repr;

    open spec fn datainfo(&self) -> JsonView {
        JsonView::Object(
            seq![type_member("struct"@), ("members"@, JsonView::Object(self.members.infos()))],
        )
    }

    open spec fn encoded(&self, val: <M::Repr as DeepView>::V) -> Result<JsonView, ErrorView> {
        match self.members.encoded_members(val) {
            Ok(entries) => Ok(JsonView::Object(entries)),
            Err(e) => Err(e),
        }
    }

    open spec fn decoded(&self, val: JsonView) -> Result<<M::Repr as DeepView>::V, ErrorView> {
        match val {
            JsonView::Object(obj) => self.members.decoded_members(obj),
            _ => Err(bad_value("expected object"@)),
        }
    }

    /// A value is told from its encoding where its members are encoded
    /// faithfully and no two members have the same name.
    open spec fn faithful(&self, val: <M::Repr as DeepView>::V) -> bool {
        self.members.faithful_members(val) && self.members.distinct()
    }

    fn describe(&self) -> (r: Json) {
        let mut infos = new_members();
        self.members.describe_members(&mut infos);
        assert(member_views_of(infos@) =~= self.members.infos());
        let mut out = new_members();
        push_type(&mut out, "struct");
        push_member(&mut out, "members", Json::object(infos));
        let r = Json::object(out);
        assert(r@->Object_0 =~= self.datainfo()->Object_0);
        r
    }

    fn to_json(&self, val: M::Repr) -> (r: Result<Json, Error>) {
        let mut entries = new_members();
        match self.members.encode_members(val, &mut entries) {
            Ok(_) => {
                assert(member_views_of(entries@) =~= self.members.encoded_members(
                    val.deep_view(),
                )->Ok_0);
                Ok(Json::object(entries))
            },
            Err(e) => Err(e),
        }
    }

    fn from_json(&self, val: &Json) -> (r: Result<M::Repr, Error>) {
        match val.as_object() {
            Some(obj) => self.members.decode_members(obj),
            None => Err(Error::bad_value("expected object")),
        }
    }
}

impl<M: MemberLaws> TypeLaws for Struct<M> {
    proof fn lemma_decode_encode(&self, val: <M::Repr as DeepView>::V) {
        self.members.lemma_members_decode_encode(val, Seq::empty());
        assert(Seq::<(Seq<char>, JsonView)>::empty() + self.members.encoded_members(val)->Ok_0
            =~= self.members.encoded_members(val)->Ok_0);
    }

    proof fn lemma_encode_error(&self, val: <M::Repr as DeepView>::V) {
        self.members.lemma_members_errors(val, Seq::empty());
    }

    proof fn lemma_decode_error(&self, val: JsonView) {
        match val {
            JsonView::Object(obj) => {
                let any = arbitrary::<<M::Repr as DeepView>::V>();
                self.members.lemma_members_errors(any, obj);
            },
            _ => {},
        }
    }
}

} // verus!
