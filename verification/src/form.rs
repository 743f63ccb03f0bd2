//! The one form the service accepts: a single field named `message`.
use vstd::prelude::*;

verus! {

/// The name-value pairs of `body` read as `application/x-www-form-urlencoded`,
/// as `form_urlencoded::parse` yields them: in order, percent-decoded.
pub uninterp spec fn form_fields(body: Seq<char>) -> Seq<(Seq<char>, Seq<char>)>;

/// The name of the field that carries a message.
pub open spec fn message_name() -> Seq<char> {
    seq!['m', 'e', 's', 's', 'a', 'g', 'e']
}

/// The message that a form carries: the value of its only field, where that
/// field is named `message`. A form with no field, with several, or with
/// another name carries none.
pub open spec fn message_field(fields: Seq<(Seq<char>, Seq<char>)>) -> Option<Seq<char>> {
    if fields.len() == 1 && fields[0].0 == message_name() {
        Some(fields[0].1)
    } else {
        None
    }
}

/// `form_urlencoded::parse` of the `url` crate on the bytes of `body`, every
/// pair collected as owned strings. The pairs are a function of the body alone.
#[verifier::external_body]
fn parse_form(body: &str) -> (pairs: Vec<(String, String)>)
    ensures
        pairs.deep_view() == form_fields(body@),
{
    url::form_urlencoded::parse(body.as_bytes()).into_owned().collect()
}

/// The message among the parsed fields of a form, if the form carries one.
pub fn message_of(pairs: Vec<(String, String)>) -> (text: Option<String>)
    ensures
        text.deep_view() == message_field(pairs.deep_view()),
{
    let mut pairs = pairs;
    if pairs.len() == 1 {
        proof {
            reveal_strlit("message");
        }
        let ghost fields = pairs.deep_view();
        assert(fields[0] == pairs@[0].deep_view());
        let (name, value) = pairs.remove(0);
        let wanted = String::from_str("message");
        assert(wanted@ =~= message_name());
        if name == wanted {
            Some(value)
        } else {
            None
        }
    } else {
        None
    }
}

/// The message that the form `body` carries, if it carries one.
pub fn parse_message(body: &str) -> (text: Option<String>)
    ensures
        text.deep_view() == message_field(form_fields(body@)),
{
    message_of(parse_form(body))
}

} // verus!
