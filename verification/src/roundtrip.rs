//! Parsing undoes formatting: the line written for a message reads back as
//! that message.

use vstd::prelude::*;
use crate::grammar::{find_char, lemma_find_char_is, lemma_spec_end_is, lemma_verb_end_is, spec_end,
    split_spec, verb_end, LineParts};
use crate::json::{json_parse_of, json_text_of, wire_safe, JsonView};
use crate::proto::{accessible_of, addressed, addressed_with, assemble_spec, build_spec,
    format_spec, ident_reply, module_of, parse_inner_spec, parse_spec, with_data, with_optional,
    MsgView};
use crate::text::{is_space_char, is_spec_char, is_verb_char, is_word_char};

verus! {

/// A word of specifier characters.
pub open spec fn is_token(s: Seq<char>) -> bool {
    forall|i: int| 0 <= i < s.len() ==> is_spec_char(#[trigger] s[i])
}

/// A word of specifier characters without a colon: what can name a module.
pub open spec fn is_name(s: Seq<char>) -> bool {
    forall|i: int| 0 <= i < s.len() ==> is_spec_char(#[trigger] s[i]) && s[i] != ':'
}

/// A word of verb characters.
pub open spec fn is_verb(s: Seq<char>) -> bool {
    &&& s.len() > 0
    &&& forall|i: int| 0 <= i < s.len() ==> is_verb_char(#[trigger] s[i])
}

/// A text without a line feed.
pub open spec fn one_line(s: Seq<char>) -> bool {
    forall|i: int| 0 <= i < s.len() ==> #[trigger] s[i] != '\n'
}

/// The messages that are written to the wire in a form that reads back:
/// names and tokens are words of the grammar, a token that must be there is
/// not empty, the identify reply is the fixed one, and a JSON payload is one
/// that the JSON codec itself writes on one line and reads back unchanged.
pub open spec fn canonical(m: MsgView) -> bool {
    match m {
        MsgView::Update { module, param, data } => is_name(module) && is_token(param)
            && wire_safe(data),
        MsgView::Changed { module, param, data } => is_name(module) && is_token(param)
            && wire_safe(data),
        MsgView::Done { module, command, data } => is_name(module) && is_token(command)
            && wire_safe(data),
        MsgView::Change { module, param, value } => is_name(module) && is_token(param)
            && wire_safe(value),
        MsgView::Do { module, command, arg } => is_name(module) && is_token(command) && wire_safe(
            arg,
        ),
        MsgView::Read { module, param } => is_name(module) && is_token(param),
        MsgView::Describing { id, structure } => id.len() > 0 && is_token(id) && wire_safe(
            structure,
        ),
        MsgView::Pong { token, data } => token.len() > 0 && is_token(token) && wire_safe(data),
        MsgView::ErrMsg { class, report } => class.len() > 0 && is_token(class) && wire_safe(
            report,
        ),
        MsgView::Ping { token } => is_token(token),
        MsgView::Active { module } => is_name(module),
        MsgView::Inactive { module } => is_name(module),
        MsgView::Activate { module } => is_name(module),
        MsgView::Deactivate { module } => is_name(module),
        MsgView::Idn => true,
        MsgView::Describe => true,
        MsgView::IdnReply { encoded } => encoded == ident_reply(),
        MsgView::InitUpdates { .. } => false,
        MsgView::Quit => false,
    }
}

proof fn lemma_space()
    ensures
        " "@.len() == 1,
        " "@[0] == ' ',
        is_space_char(' '),
        !is_verb_char(' '),
        !is_spec_char(' '),
        ":"@.len() == 1,
        ":"@[0] == ':',
{
    reveal_strlit(" ");
    reveal_strlit(":");
}

/// A verb alone splits into the verb.
pub proof fn lemma_split_one(verb: Seq<char>)
    requires
        is_verb(verb),
    ensures
        split_spec(verb) == Some(LineParts { verb, specifier: None, json: None }),
{
    lemma_verb_end_is(verb, 0, verb.len() as int);
}

/// A verb and a specifier split into the two.
pub proof fn lemma_split_two(verb: Seq<char>, word: Seq<char>)
    requires
        is_verb(verb),
        is_token(word),
        word.len() > 0,
    ensures
        split_spec(verb + " "@ + word) == Some(
            LineParts { verb, specifier: Some(word), json: None },
        ),
{
    lemma_space();
    let s = verb + " "@ + word;
    let v = verb.len() as int;
    assert(s.len() == v + 1 + word.len());
    assert(forall|k: int| 0 <= k < v ==> s[k] == verb[k]);
    assert(s[v] == ' ');
    assert(forall|k: int| v + 1 <= k < s.len() ==> s[k] == word[k - v - 1]);
    lemma_verb_end_is(s, 0, v);
    lemma_spec_end_is(s, v + 1, s.len() as int);
    assert(s.subrange(0, v) =~= verb);
    assert(s.subrange(v + 1, s.len() as int) =~= word);
}

/// A verb, a specifier and a text on one line split into the three.
pub proof fn lemma_split_three(verb: Seq<char>, word: Seq<char>, text: Seq<char>)
    requires
        is_verb(verb),
        is_token(word),
        word.len() > 0,
        one_line(text),
    ensures
        split_spec(verb + " "@ + word + " "@ + text) == Some(
            LineParts { verb, specifier: Some(word), json: Some(text) },
        ),
{
    lemma_space();
    let s = verb + " "@ + word + " "@ + text;
    let v = verb.len() as int;
    let e = v + 1 + word.len();
    assert(s.len() == e + 1 + text.len());
    assert(forall|k: int| 0 <= k < v ==> s[k] == verb[k]);
    assert(s[v] == ' ');
    assert(forall|k: int| v + 1 <= k < e ==> s[k] == word[k - v - 1]);
    assert(s[e] == ' ');
    assert(forall|k: int| e + 1 <= k < s.len() ==> s[k] == text[k - e - 1]);
    lemma_verb_end_is(s, 0, v);
    lemma_spec_end_is(s, v + 1, e);
    lemma_find_char_is(s, '\n', e + 1, s.len() as int);
    assert(s.subrange(0, v) =~= verb);
    assert(s.subrange(v + 1, e) =~= word);
    assert(s.subrange(e + 1, s.len() as int) =~= text);
}

/// A name, a colon and a token come apart at the colon.
pub proof fn lemma_address(module: Seq<char>, accessible: Seq<char>)
    requires
        is_name(module),
        is_token(accessible),
    ensures
        is_token(module + ":"@ + accessible),
        (module + ":"@ + accessible).len() > 0,
        module_of(module + ":"@ + accessible) == module,
        accessible_of(module + ":"@ + accessible) == Some(accessible),
{
    lemma_space();
    let s = module + ":"@ + accessible;
    let k = module.len() as int;
    assert(forall|i: int| 0 <= i < k ==> s[i] == module[i]);
    assert(s[k] == ':');
    assert(forall|i: int| k + 1 <= i < s.len() ==> s[i] == accessible[i - k - 1]);
    lemma_find_char_is(s, ':', 0, k);
    assert(s.subrange(0, k) =~= module);
    assert(s.subrange(k + 1, s.len() as int) =~= accessible);
    assert forall|i: int| 0 <= i < s.len() implies is_spec_char(#[trigger] s[i]) by {
        if i < k {
            assert(s[i] == module[i]);
        } else if i > k {
            assert(s[i] == accessible[i - k - 1]);
        }
    }
}

/// A name is its own module part and has no accessible part.
pub proof fn lemma_name_alone(module: Seq<char>)
    requires
        is_name(module),
    ensures
        is_token(module),
        module_of(module) == module,
        accessible_of(module) is None,
{
    lemma_find_char_is(module, ':', 0, module.len() as int);
    assert(module.subrange(0, module.len() as int) =~= module);
}


/// The verbs of the protocol are words of verb characters, each different
/// from the others.
proof fn lemma_verbs()
    ensures
        is_verb("read"@),
        is_verb("change"@),
        is_verb("do"@),
        is_verb("describe"@),
        is_verb("activate"@),
        is_verb("deactivate"@),
        is_verb("ping"@),
        is_verb("*IDN?"@),
        is_verb("update"@),
        is_verb("changed"@),
        is_verb("done"@),
        is_verb("describing"@),
        is_verb("active"@),
        is_verb("inactive"@),
        is_verb("pong"@),
        is_verb("error"@),
        "read"@.len() == 4,
        "change"@.len() == 6 && "change"@[0] == 'c',
        "do"@.len() == 2,
        "describe"@.len() == 8 && "describe"@[0] == 'd',
        "activate"@.len() == 8 && "activate"@[0] == 'a',
        "deactivate"@.len() == 10 && "deactivate"@[2] == 'a',
        "ping"@.len() == 4 && "ping"@[0] == 'p' && "ping"@[1] == 'i',
        "*IDN?"@.len() == 5 && "*IDN?"@[0] == '*',
        "update"@.len() == 6 && "update"@[0] == 'u',
        "changed"@.len() == 7,
        "done"@.len() == 4 && "done"@[0] == 'd',
        "describing"@.len() == 10 && "describing"@[2] == 's',
        "active"@.len() == 6 && "active"@[0] == 'a',
        "inactive"@.len() == 8 && "inactive"@[0] == 'i',
        "pong"@.len() == 4 && "pong"@[0] == 'p' && "pong"@[1] == 'o',
        "error"@.len() == 5 && "error"@[0] == 'e',
        "read"@[0] == 'r',
{
    reveal_strlit("read");
    reveal_strlit("change");
    reveal_strlit("do");
    reveal_strlit("describe");
    reveal_strlit("activate");
    reveal_strlit("deactivate");
    reveal_strlit("ping");
    reveal_strlit("*IDN?");
    reveal_strlit("update");
    reveal_strlit("changed");
    reveal_strlit("done");
    reveal_strlit("describing");
    reveal_strlit("active");
    reveal_strlit("inactive");
    reveal_strlit("pong");
    reveal_strlit("error");
}

/// A line of a verb, a specifier and the text of a JSON value stands for
/// what the three stand for.
proof fn lemma_line_three(verb: Seq<char>, word: Seq<char>, data: JsonView)
    requires
        is_verb(verb),
        is_token(word),
        word.len() > 0,
        wire_safe(data),
    ensures
        parse_inner_spec(verb + " "@ + word + " "@ + json_text_of(data)) == build_spec(
            verb,
            word,
            data,
        ),
{
    lemma_split_three(verb, word, json_text_of(data));
}

/// A line of a verb and a specifier stands for what the two stand for.
proof fn lemma_line_two(verb: Seq<char>, word: Seq<char>)
    requires
        is_verb(verb),
        is_token(word),
        word.len() > 0,
    ensures
        parse_inner_spec(verb + " "@ + word) == build_spec(verb, word, JsonView::Null),
{
    lemma_split_two(verb, word);
}

/// A line of a verb alone stands for what the verb stands for.
proof fn lemma_line_one(verb: Seq<char>)
    requires
        is_verb(verb),
    ensures
        parse_inner_spec(verb) == build_spec(verb, Seq::<char>::empty(), JsonView::Null),
{
    lemma_split_one(verb);
}

/// A line of a verb and an optional word stands for what the two stand for.
proof fn lemma_line_optional(verb: Seq<char>, word: Seq<char>)
    requires
        is_verb(verb),
        is_token(word),
    ensures
        parse_inner_spec(with_optional(verb, word)) == build_spec(verb, word, JsonView::Null),
{
    if word.len() == 0 {
        lemma_line_one(verb);
        assert(word =~= Seq::<char>::empty());
    } else {
        lemma_line_two(verb, word);
    }
}

/// A line of a verb, an address and the text of a JSON value stands for
/// what the verb, the address and the value stand for.
proof fn lemma_line_addressed_with(
    verb: Seq<char>,
    module: Seq<char>,
    accessible: Seq<char>,
    data: JsonView,
)
    requires
        is_verb(verb),
        is_name(module),
        is_token(accessible),
        wire_safe(data),
    ensures
        parse_inner_spec(addressed_with(verb, module, accessible, data)) == build_spec(
            verb,
            module + ":"@ + accessible,
            data,
        ),
        module_of(module + ":"@ + accessible) == module,
        accessible_of(module + ":"@ + accessible) == Some(accessible),
{
    lemma_address(module, accessible);
    lemma_line_three(verb, module + ":"@ + accessible, data);
    assert(addressed_with(verb, module, accessible, data) =~= verb + " "@ + (module + ":"@
        + accessible) + " "@ + json_text_of(data));
}

proof fn lemma_update(module: Seq<char>, param: Seq<char>, data: JsonView)
    requires
        canonical(MsgView::Update { module, param, data }),
    ensures
        parse_inner_spec(format_spec(MsgView::Update { module, param, data })) == Ok::<
            MsgView,
            crate::errors::ErrorView,
        >(MsgView::Update { module, param, data }),
{
    lemma_verbs();
    lemma_line_addressed_with("update"@, module, param, data);
}

proof fn lemma_changed(module: Seq<char>, param: Seq<char>, data: JsonView)
    requires
        canonical(MsgView::Changed { module, param, data }),
    ensures
        parse_inner_spec(format_spec(MsgView::Changed { module, param, data })) == Ok::<
            MsgView,
            crate::errors::ErrorView,
        >(MsgView::Changed { module, param, data }),
{
    lemma_verbs();
    lemma_line_addressed_with("changed"@, module, param, data);
}

proof fn lemma_done(module: Seq<char>, command: Seq<char>, data: JsonView)
    requires
        canonical(MsgView::Done { module, command, data }),
    ensures
        parse_inner_spec(format_spec(MsgView::Done { module, command, data })) == Ok::<
            MsgView,
            crate::errors::ErrorView,
        >(MsgView::Done { module, command, data }),
{
    lemma_verbs();
    lemma_line_addressed_with("done"@, module, command, data);
}

proof fn lemma_change(module: Seq<char>, param: Seq<char>, value: JsonView)
    requires
        canonical(MsgView::Change { module, param, value }),
    ensures
        parse_inner_spec(format_spec(MsgView::Change { module, param, value })) == Ok::<
            MsgView,
            crate::errors::ErrorView,
        >(MsgView::Change { module, param, value }),
{
    lemma_verbs();
    lemma_line_addressed_with("change"@, module, param, value);
}

proof fn lemma_do(module: Seq<char>, command: Seq<char>, arg: JsonView)
    requires
        canonical(MsgView::Do { module, command, arg }),
    ensures
        parse_inner_spec(format_spec(MsgView::Do { module, command, arg })) == Ok::<
            MsgView,
            crate::errors::ErrorView,
        >(MsgView::Do { module, command, arg }),
{
    lemma_verbs();
    lemma_line_addressed_with("do"@, module, command, arg);
}

proof fn lemma_read(module: Seq<char>, param: Seq<char>)
    requires
        canonical(MsgView::Read { module, param }),
    ensures
        parse_inner_spec(format_spec(MsgView::Read { module, param })) == Ok::<
            MsgView,
            crate::errors::ErrorView,
        >(MsgView::Read { module, param }),
{
    lemma_verbs();
    lemma_address(module, param);
    lemma_line_two("read"@, module + ":"@ + param);
    assert(addressed("read"@, module, param) =~= "read"@ + " "@ + (module + ":"@ + param));
}

proof fn lemma_describing(id: Seq<char>, structure: JsonView)
    requires
        canonical(MsgView::Describing { id, structure }),
    ensures
        parse_inner_spec(format_spec(MsgView::Describing { id, structure })) == Ok::<
            MsgView,
            crate::errors::ErrorView,
        >(MsgView::Describing { id, structure }),
{
    lemma_verbs();
    lemma_line_three("describing"@, id, structure);
}

proof fn lemma_pong(token: Seq<char>, data: JsonView)
    requires
        canonical(MsgView::Pong { token, data }),
    ensures
        parse_inner_spec(format_spec(MsgView::Pong { token, data })) == Ok::<
            MsgView,
            crate::errors::ErrorView,
        >(MsgView::Pong { token, data }),
{
    lemma_verbs();
    lemma_line_three("pong"@, token, data);
}

proof fn lemma_error(class: Seq<char>, report: JsonView)
    requires
        canonical(MsgView::ErrMsg { class, report }),
    ensures
        parse_inner_spec(format_spec(MsgView::ErrMsg { class, report })) == Ok::<
            MsgView,
            crate::errors::ErrorView,
        >(MsgView::ErrMsg { class, report }),
{
    lemma_verbs();
    lemma_line_three("error"@, class, report);
}

proof fn lemma_ping(token: Seq<char>)
    requires
        canonical(MsgView::Ping { token }),
    ensures
        parse_inner_spec(format_spec(MsgView::Ping { token })) == Ok::<
            MsgView,
            crate::errors::ErrorView,
        >(MsgView::Ping { token }),
{
    lemma_verbs();
    lemma_line_optional("ping"@, token);
}

proof fn lemma_active(module: Seq<char>)
    requires
        is_name(module),
    ensures
        parse_inner_spec(format_spec(MsgView::Active { module })) == Ok::<
            MsgView,
            crate::errors::ErrorView,
        >(MsgView::Active { module }),
{
    lemma_verbs();
    lemma_name_alone(module);
    lemma_line_optional("active"@, module);
}

proof fn lemma_inactive(module: Seq<char>)
    requires
        is_name(module),
    ensures
        parse_inner_spec(format_spec(MsgView::Inactive { module })) == Ok::<
            MsgView,
            crate::errors::ErrorView,
        >(MsgView::Inactive { module }),
{
    lemma_verbs();
    lemma_name_alone(module);
    lemma_line_optional("inactive"@, module);
}

proof fn lemma_activate(module: Seq<char>)
    requires
        is_name(module),
    ensures
        parse_inner_spec(format_spec(MsgView::Activate { module })) == Ok::<
            MsgView,
            crate::errors::ErrorView,
        >(MsgView::Activate { module }),
{
    lemma_verbs();
    lemma_name_alone(module);
    lemma_line_optional("activate"@, module);
}

proof fn lemma_deactivate(module: Seq<char>)
    requires
        is_name(module),
    ensures
        parse_inner_spec(format_spec(MsgView::Deactivate { module })) == Ok::<
            MsgView,
            crate::errors::ErrorView,
        >(MsgView::Deactivate { module }),
{
    lemma_verbs();
    lemma_name_alone(module);
    lemma_line_optional("deactivate"@, module);
}

proof fn lemma_idn()
    ensures
        parse_inner_spec(format_spec(MsgView::Idn)) == Ok::<MsgView, crate::errors::ErrorView>(
            MsgView::Idn,
        ),
{
    lemma_verbs();
    lemma_line_one("*IDN?"@);
}

proof fn lemma_describe()
    ensures
        parse_inner_spec(format_spec(MsgView::Describe)) == Ok::<
            MsgView,
            crate::errors::ErrorView,
        >(MsgView::Describe),
{
    lemma_verbs();
    lemma_line_one("describe"@);
}

/// Parsing undoes formatting: for every canonical message `m`, the line
/// written for `m` parses to `m`.
pub proof fn lemma_parse_format(m: MsgView)
    requires
        canonical(m),
    ensures
        parse_spec(format_spec(m)) == Ok::<MsgView, MsgView>(m),
{
    match m {
        MsgView::Update { module, param, data } => lemma_update(module, param, data),
        MsgView::Changed { module, param, data } => lemma_changed(module, param, data),
        MsgView::Done { module, command, data } => lemma_done(module, command, data),
        MsgView::Change { module, param, value } => lemma_change(module, param, value),
        MsgView::Do { module, command, arg } => lemma_do(module, command, arg),
        MsgView::Read { module, param } => lemma_read(module, param),
        MsgView::Describing { id, structure } => lemma_describing(id, structure),
        MsgView::Pong { token, data } => lemma_pong(token, data),
        MsgView::ErrMsg { class, report } => lemma_error(class, report),
        MsgView::Ping { token } => lemma_ping(token),
        MsgView::Active { module } => lemma_active(module),
        MsgView::Inactive { module } => lemma_inactive(module),
        MsgView::Activate { module } => lemma_activate(module),
        MsgView::Deactivate { module } => lemma_deactivate(module),
        MsgView::Idn => lemma_idn(),
        MsgView::Describe => lemma_describe(),
        MsgView::IdnReply { encoded } => lemma_ident_reply(),
        MsgView::InitUpdates { .. } => {},
        MsgView::Quit => {},
    }
}

/// The identify reply has not the shape of a message.
proof fn lemma_ident_reply()
    ensures
        split_spec(ident_reply()) is None,
{
    reveal_strlit("SINE2020&ISSE,SECoP,V2018-11-07,v1.0\\beta");
    let s = ident_reply();
    assert(s[0] == 'S' && s[1] == 'I' && s[2] == 'N' && s[3] == 'E' && s[4] == '2' && s[5] == '0'
        && s[6] == '2' && s[7] == '0' && s[8] == '&');
    assert forall|k: int| 0 <= k < 8 implies is_verb_char(s[k]) by {
        if k == 0 {
        } else if k == 1 {
        } else if k == 2 {
        } else if k == 3 {
        } else if k == 4 {
        } else if k == 5 {
        } else if k == 6 {
        } else {
        }
    }
    lemma_verb_end_is(s, 0, 8);
}

} // verus!
