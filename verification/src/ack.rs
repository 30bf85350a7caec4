//! The acknowledgment capability: one synchronous reply per request.
//!
//! An `Ack` is bound to one request and records whether the request has been
//! acknowledged. Every reply constructor sets the flag; the flag only ever
//! moves from unacknowledged to acknowledged, never back.

use std::sync::Arc;
use vstd::prelude::*;
use crate::error::SlackError;
use crate::request::SlackRequest;
use crate::response::{
    text_response_model, BlocksModel, BlocksResponse, ResponseBodyModel, ResponseModel,
    SlackResponse, SlackResponseBody, TextModel, TextResponse,
};

verus! {

/// The per-request acknowledgment guard and reply builder.
pub struct Ack {
    request: Arc<SlackRequest>,
    acknowledged: bool,
}

impl Ack {
    /// Whether the request has been acknowledged.
    pub closed spec fn acked(&self) -> bool {
        self.acknowledged
    }

    /// A fresh, unacknowledged guard for one request.
    pub fn new(request: Arc<SlackRequest>) -> (r: Ack)
        ensures
            !r.acked(),
    {
        Ack { request, acknowledged: false }
    }

    /// Acknowledges with an empty 200 response.
    pub fn empty(&mut self) -> (r: core::result::Result<SlackResponse, SlackError>)
        ensures
            final(self).acked(),
            r matches Ok(resp) && resp@ == crate::response::empty_response_model(),
    {
        self.acknowledged = true;
        Ok(SlackResponse::empty())
    }

    /// Acknowledges with a plain text response.
    pub fn text(&mut self, text: String) -> (r: core::result::Result<SlackResponse, SlackError>)
        ensures
            final(self).acked(),
            r matches Ok(resp) && resp@ == text_response_model(text@),
    {
        self.acknowledged = true;
        Ok(SlackResponse::text(text))
    }

    /// Acknowledges with a rich-layout response: a 200 carrying exactly the
    /// given blocks (each as raw JSON text), no headers, and no text, no
    /// response type and no original-message directives.
    pub fn blocks(&mut self, blocks: Vec<String>) -> (r: core::result::Result<
        SlackResponse,
        SlackError,
    >)
        ensures
            final(self).acked(),
            r matches Ok(resp) && resp@ == (ResponseModel {
                status_code: 200,
                headers: Seq::empty(),
                body: ResponseBodyModel::Blocks(
                    BlocksModel {
                        blocks: blocks.deep_view(),
                        text: None,
                        response_type: None,
                        replace_original: None,
                        delete_original: None,
                    },
                ),
            }),
    {
        self.acknowledged = true;
        let resp = SlackResponse {
            status_code: 200,
            headers: Vec::new(),
            body: SlackResponseBody::Blocks(
                BlocksResponse {
                    blocks,
                    text: None,
                    response_type: None,
                    replace_original: None,
                    delete_original: None,
                },
            ),
        };
        proof {
            assert(resp@.headers =~= Seq::<(Seq<char>, Seq<char>)>::empty());
        }
        Ok(resp)
    }

    /// Acknowledges with an ephemeral text response, visible only to the
    /// invoking user: a 200 carrying exactly the text, the `ephemeral`
    /// response type, no headers and no original-message directives.
    pub fn ephemeral(&mut self, text: String) -> (r: core::result::Result<
        SlackResponse,
        SlackError,
    >)
        ensures
            final(self).acked(),
            r matches Ok(resp) && resp@ == (ResponseModel {
                status_code: 200,
                headers: Seq::empty(),
                body: ResponseBodyModel::Text(
                    TextModel {
                        text: text@,
                        response_type: Some("ephemeral"@),
                        replace_original: None,
                        delete_original: None,
                    },
                ),
            }),
    {
        self.acknowledged = true;
        let resp = SlackResponse {
            status_code: 200,
            headers: Vec::new(),
            body: SlackResponseBody::Text(
                TextResponse {
                    text,
                    response_type: Some(String::from_str("ephemeral")),
                    replace_original: None,
                    delete_original: None,
                },
            ),
        };
        proof {
            assert(resp@.headers =~= Seq::<(Seq<char>, Seq<char>)>::empty());
        }
        Ok(resp)
    }

    /// Acknowledges with an in-channel text response, visible to the whole
    /// channel: a 200 carrying exactly the text, the `in_channel` response
    /// type, no headers and no original-message directives.
    pub fn in_channel(&mut self, text: String) -> (r: core::result::Result<
        SlackResponse,
        SlackError,
    >)
        ensures
            final(self).acked(),
            r matches Ok(resp) && resp@ == (ResponseModel {
                status_code: 200,
                headers: Seq::empty(),
                body: ResponseBodyModel::Text(
                    TextModel {
                        text: text@,
                        response_type: Some("in_channel"@),
                        replace_original: None,
                        delete_original: None,
                    },
                ),
            }),
    {
        self.acknowledged = true;
        let resp = SlackResponse {
            status_code: 200,
            headers: Vec::new(),
            body: SlackResponseBody::Text(
                TextResponse {
                    text,
                    response_type: Some(String::from_str("in_channel")),
                    replace_original: None,
                    delete_original: None,
                },
            ),
        };
        proof {
            assert(resp@.headers =~= Seq::<(Seq<char>, Seq<char>)>::empty());
        }
        Ok(resp)
    }

    /// Whether this request has been acknowledged.
    pub fn is_acknowledged(&self) -> (r: bool)
        ensures
            r == self.acked(),
    {
        self.acknowledged
    }

    /// The request this guard is bound to.
    pub fn request(&self) -> (r: &SlackRequest) {
        &*self.request
    }
}

} // verus!
