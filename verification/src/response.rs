//! The protocol response: exactly one body variant per response.

use vstd::prelude::*;
use crate::form::pairs_view;
use vstd::string::StringExecFns;

verus! {

/// An outbound HTTP response.
pub struct SlackResponse {
    pub status_code: u16,
    pub headers: Vec<(String, String)>,
    pub body: SlackResponseBody,
}

/// The response body: exactly one variant populates a given response.
pub enum SlackResponseBody {
    Text(TextResponse),
    Blocks(BlocksResponse),
    Challenge(ChallengeResponse),
    OAuth(OAuthResponse),
    Empty,
}

/// A plain message, optionally marked ephemeral or in-channel.
pub struct TextResponse {
    pub text: String,
    pub response_type: Option<String>,
    pub replace_original: Option<bool>,
    pub delete_original: Option<bool>,
}

/// A rich layout; each block is carried as its raw JSON text.
pub struct BlocksResponse {
    pub blocks: Vec<String>,
    pub text: Option<String>,
    pub response_type: Option<String>,
    pub replace_original: Option<bool>,
    pub delete_original: Option<bool>,
}

/// The URL-verification challenge echo.
pub struct ChallengeResponse {
    pub challenge: String,
}

/// An OAuth response carrying an authorization URL.
pub struct OAuthResponse {
    pub url: String,
}

/// Specification-level form of [`TextResponse`].
pub struct TextModel {
    pub text: Seq<char>,
    pub response_type: Option<Seq<char>>,
    pub replace_original: Option<bool>,
    pub delete_original: Option<bool>,
}

/// Specification-level form of [`BlocksResponse`].
pub struct BlocksModel {
    pub blocks: Seq<Seq<char>>,
    pub text: Option<Seq<char>>,
    pub response_type: Option<Seq<char>>,
    pub replace_original: Option<bool>,
    pub delete_original: Option<bool>,
}

/// Specification-level form of [`SlackResponseBody`].
pub enum ResponseBodyModel {
    Text(TextModel),
    Blocks(BlocksModel),
    Challenge(Seq<char>),
    OAuth(Seq<char>),
    Empty,
}

/// Specification-level form of [`SlackResponse`].
pub struct ResponseModel {
    pub status_code: u16,
    pub headers: Seq<(Seq<char>, Seq<char>)>,
    pub body: ResponseBodyModel,
}

impl View for SlackResponseBody {
    type V = ResponseBodyModel;

    open spec fn view(&self) -> ResponseBodyModel {
        match self {
            SlackResponseBody::Text(t) => ResponseBodyModel::Text(
                TextModel {
                    text: t.text@,
                    response_type: t.response_type.deep_view(),
                    replace_original: t.replace_original,
                    delete_original: t.delete_original,
                },
            ),
            SlackResponseBody::Blocks(b) => ResponseBodyModel::Blocks(
                BlocksModel {
                    blocks: b.blocks.deep_view(),
                    text: b.text.deep_view(),
                    response_type: b.response_type.deep_view(),
                    replace_original: b.replace_original,
                    delete_original: b.delete_original,
                },
            ),
            SlackResponseBody::Challenge(c) => ResponseBodyModel::Challenge(c.challenge@),
            SlackResponseBody::OAuth(o) => ResponseBodyModel::OAuth(o.url@),
            SlackResponseBody::Empty => ResponseBodyModel::Empty,
        }
    }
}

impl View for SlackResponse {
    type V = ResponseModel;

    open spec fn view(&self) -> ResponseModel {
        ResponseModel {
            status_code: self.status_code,
            headers: pairs_view(self.headers@),
            body: self.body@,
        }
    }
}

/// The model of an empty 200 response.
pub open spec fn empty_response_model() -> ResponseModel {
    ResponseModel { status_code: 200, headers: Seq::empty(), body: ResponseBodyModel::Empty }
}

/// The model of a plain 200 text response without a response type.
pub open spec fn text_response_model(text: Seq<char>) -> ResponseModel {
    ResponseModel {
        status_code: 200,
        headers: Seq::empty(),
        body: ResponseBodyModel::Text(
            TextModel {
                text: text,
                response_type: None,
                replace_original: None,
                delete_original: None,
            },
        ),
    }
}

/// The model of a 200 challenge-echo response.
pub open spec fn challenge_response_model(challenge: Seq<char>) -> ResponseModel {
    ResponseModel {
        status_code: 200,
        headers: Seq::empty(),
        body: ResponseBodyModel::Challenge(challenge),
    }
}

/// The model of a 302 redirect carrying a Location header.
pub open spec fn redirect_response_model(url: Seq<char>) -> ResponseModel {
    ResponseModel {
        status_code: 302,
        headers: seq![("Location"@, url)],
        body: ResponseBodyModel::Empty,
    }
}

impl SlackResponse {
    /// An empty 200 response.
    pub fn empty() -> (r: SlackResponse)
        ensures
            r@ == empty_response_model(),
    {
        let r = SlackResponse {
            status_code: 200,
            headers: Vec::new(),
            body: SlackResponseBody::Empty,
        };
        proof {
            assert(r@.headers =~= empty_response_model().headers);
        }
        r
    }

    /// A plain 200 text response.
    pub fn text(text: String) -> (r: SlackResponse)
        ensures
            r@ == text_response_model(text@),
    {
        let r = SlackResponse {
            status_code: 200,
            headers: Vec::new(),
            body: SlackResponseBody::Text(
                TextResponse {
                    text,
                    response_type: None,
                    replace_original: None,
                    delete_original: None,
                },
            ),
        };
        proof {
            assert(r@.headers =~= text_response_model(r.body->Text_0.text@).headers);
        }
        r
    }

    /// A 200 challenge-echo response carrying the challenge verbatim.
    pub fn challenge(challenge: String) -> (r: SlackResponse)
        ensures
            r@ == challenge_response_model(challenge@),
    {
        let r = SlackResponse {
            status_code: 200,
            headers: Vec::new(),
            body: SlackResponseBody::Challenge(ChallengeResponse { challenge }),
        };
        proof {
            assert(r@.headers =~= Seq::<(Seq<char>, Seq<char>)>::empty());
        }
        r
    }

    /// A 302 redirect to `url`.
    pub fn redirect(url: String) -> (r: SlackResponse)
        ensures
            r@ == redirect_response_model(url@),
    {
        let mut headers: Vec<(String, String)> = Vec::new();
        let ghost u = url@;
        headers.push((String::from_str("Location"), url));
        let r = SlackResponse { status_code: 302, headers, body: SlackResponseBody::Empty };
        proof {
            assert(r@.headers =~= redirect_response_model(u).headers);
        }
        r
    }
}

} // verus!
