use vstd::prelude::*;

use crate::errors::NerfError;
use crate::json::{
    arr_view, content_of, extract_reworded_text, json_of, json_text_of, num_free, obj_view,
    to_json_text, JsonSpec, JsonValue,
};

verus! {

/// An HTTP status is a success exactly when it lies in the 2xx range.
pub fn is_success_status(status: u16) -> (r: bool)
    ensures
        r == (200 <= status < 300),
{
    200 <= status && status < 300
}

/// The status rule of the remote call: success exactly on a 2xx status; any
/// other status is the API error carrying that status.
pub fn check_status(status: u16) -> (r: Result<(), NerfError>)
    ensures
        200 <= status < 300 ==> r == Ok::<(), NerfError>(()),
        !(200 <= status < 300) ==> r == Err::<(), NerfError>(NerfError::Api(status)),
{
    if is_success_status(status) {
        Ok(())
    } else {
        Err(NerfError::Api(status))
    }
}

/// What the program makes of a completed HTTP exchange: on a status outside
/// the 2xx range, the API error carrying it, whatever the body; on a success
/// status, the first choice's message content of the body's JSON document,
/// or the parse error where the body has no such content.
pub fn handle_response(status: u16, body: &str) -> (r: Result<String, NerfError>)
    ensures
        !(200 <= status < 300) ==> r == Err::<String, NerfError>(NerfError::Api(status)),
        200 <= status < 300 ==> match json_of(body@) {
            None => r == Err::<String, NerfError>(NerfError::Parse),
            Some(doc) => match content_of(doc) {
                Some(c) => r matches Ok(s) && s@ == c,
                None => r == Err::<String, NerfError>(NerfError::Parse),
            },
        },
{
    match check_status(status) {
        Err(e) => Err(e),
        Ok(_) => extract_reworded_text(body),
    }
}

/// The fixed instruction sent as the system message of every request.
pub fn system_instruction() -> (r: &'static str)
    ensures
        r@
            == "You are a helpful assistant. When transforming statements, preserve all URLs, `@handles`, and `#channels` exactly as they are, without any modifications. Do not include these instructions in your output."@,
{
    "You are a helpful assistant. When transforming statements, preserve all URLs, `@handles`, and `#channels` exactly as they are, without any modifications. Do not include these instructions in your output."
}

/// The fixed model identifier sent with every request.
pub fn model_identifier() -> (r: &'static str)
    ensures
        r@ == "gpt-3.5-turbo-16k"@,
{
    "gpt-3.5-turbo-16k"
}

/// The document of the request body: the fixed model identifier, then the
/// fixed system instruction and the filled prompt as the two messages.
pub open spec fn request_doc(prompt: Seq<char>) -> JsonSpec {
    JsonSpec::Obj(
        seq![
            ("model"@, JsonSpec::Str("gpt-3.5-turbo-16k"@)),
            (
                "messages"@,
                JsonSpec::Arr(
                    seq![
                        JsonSpec::Obj(
                            seq![
                                ("role"@, JsonSpec::Str("system"@)),
                                (
                                    "content"@,
                                    JsonSpec::Str(
                                        "You are a helpful assistant. When transforming statements, preserve all URLs, `@handles`, and `#channels` exactly as they are, without any modifications. Do not include these instructions in your output."@,
                                    ),
                                ),
                            ],
                        ),
                        JsonSpec::Obj(
                            seq![
                                ("role"@, JsonSpec::Str("user"@)),
                                ("content"@, JsonSpec::Str(prompt)),
                            ],
                        ),
                    ],
                ),
            ),
        ],
    )
}

/// The request body for a filled prompt, as JSON text.
pub fn build_request_body(prompt: &str) -> (r: String)
    ensures
        r@ == json_text_of(request_doc(prompt@)),
{
    let ghost rd = request_doc(prompt@);
    let mut sys_fields: Vec<(String, JsonValue)> = Vec::new();
    sys_fields.push((String::from_str("role"), JsonValue::Str(String::from_str("system"))));
    sys_fields.push(
        (String::from_str("content"), JsonValue::Str(String::from_str(system_instruction()))),
    );
    let sys_msg = JsonValue::Obj(sys_fields);
    let ghost sys_spec = sys_msg.deep_view();
    proof {
        assert(obj_view(sys_msg->Obj_0) =~= (rd->Obj_0)[1].1->Arr_0[0]->Obj_0);
        assert(sys_spec =~~= (rd->Obj_0)[1].1->Arr_0[0]);
    }
    let mut user_fields: Vec<(String, JsonValue)> = Vec::new();
    user_fields.push((String::from_str("role"), JsonValue::Str(String::from_str("user"))));
    user_fields.push((String::from_str("content"), JsonValue::Str(prompt.to_owned())));
    let user_msg = JsonValue::Obj(user_fields);
    let ghost user_spec = user_msg.deep_view();
    proof {
        assert(obj_view(user_msg->Obj_0) =~= (rd->Obj_0)[1].1->Arr_0[1]->Obj_0);
        assert(user_spec =~~= (rd->Obj_0)[1].1->Arr_0[1]);
    }
    let mut messages: Vec<JsonValue> = Vec::new();
    messages.push(sys_msg);
    messages.push(user_msg);
    let msgs_val = JsonValue::Arr(messages);
    let ghost msgs_spec = msgs_val.deep_view();
    proof {
        assert(arr_view(msgs_val->Arr_0) =~= seq![sys_spec, user_spec]);
        assert(msgs_spec =~~= (rd->Obj_0)[1].1);
    }
    let mut top_fields: Vec<(String, JsonValue)> = Vec::new();
    top_fields.push(
        (String::from_str("model"), JsonValue::Str(String::from_str(model_identifier()))),
    );
    top_fields.push((String::from_str("messages"), msgs_val));
    let doc = JsonValue::Obj(top_fields);
    proof {
        assert(obj_view(doc->Obj_0) =~= rd->Obj_0);
        assert(doc.deep_view() =~~= rd);
        assert(num_free(rd)) by {
            assert forall|i: int| 0 <= i < (rd->Obj_0).len() implies num_free(
                #[trigger] (rd->Obj_0)[i].1,
            ) by {
                if i == 1 {
                    assert forall|j: int| 0 <= j < ((rd->Obj_0)[1].1->Arr_0).len() implies num_free(
                        #[trigger] ((rd->Obj_0)[1].1->Arr_0)[j],
                    ) by {
                        let msg = ((rd->Obj_0)[1].1->Arr_0)[j];
                        assert forall|k: int| 0 <= k < (msg->Obj_0).len() implies num_free(
                            #[trigger] (msg->Obj_0)[k].1,
                        ) by {
                            assert((msg->Obj_0)[k].1 is Str);
                        }
                    }
                }
            }
        }
    }
    to_json_text(&doc)
}

/// Relies on shellexpand::tilde: an input that does not begin with a tilde
/// comes back unchanged; one that does has the tilde prefix rewritten to the
/// process's home directory, where one is known.
#[verifier::external_body]
fn tilde_expand(path: &str) -> (r: String)
    ensures
        path@.len() == 0 ==> r@ == path@,
        path@.len() > 0 && path@[0] != '~' ==> r@ == path@,
{
    shellexpand::tilde(path).into_owned()
}

/// The prompt file path with a leading tilde expanded to the home directory;
/// a path without one is kept exactly as given.
pub fn expand_prompt_path(path: &str) -> (r: String)
    ensures
        path@.len() == 0 ==> r@ == path@,
        path@.len() > 0 && path@[0] != '~' ==> r@ == path@,
{
    tilde_expand(path)
}

} // verus!
