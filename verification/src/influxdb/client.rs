//! What is sent to the query service, and what is made of its answer.

use crate::influxdb::flux_query::{
    literals, rendered_query, FluxParams, QueryBuilder, TemplateError,
};
use crate::influxdb::flux_value::{quoted, Comparable, FluxValue};
use vstd::prelude::*;
use vstd::string::StringExecFns;

verus! {

/// The path of the query service's endpoint for queries.
pub const QUERY_PATH: &'static str = "api/v2/query";

/// The media type of a query.
pub const QUERY_CONTENT_TYPE: &'static str = "application/vnd.flux";

/// The media type that is asked for the result.
pub const RESULT_CONTENT_TYPE: &'static str = "application/csv";

/// A query, ready to be posted to the query service.
#[derive(Debug)]
pub struct QueryRequest {
    /// The path to post to, below the base address of the service.
    pub path: String,
    /// The organization, sent as the query parameter `org`.
    pub org: String,
    /// The header `Content-Type`.
    pub content_type: String,
    /// The header `Accept`.
    pub accept: String,
    /// The header `Authorization`.
    pub authorization: String,
    /// The body: the rendered query.
    pub body: String,
}

/// The query service answered with a status that is no success.
#[derive(Debug)]
pub struct RemoteQueryError {
    /// What went wrong, with the words of the service where it gave any.
    pub message: String,
}

/// What the query service is told apart by: the token to read with, the organization
/// and the bucket that queries read from.
pub struct Client {
    read_token: String,
    org: String,
    bucket: String,
    query_builder: QueryBuilder,
}

/// The words of the error for an answer that says `remote`.
pub open spec fn remote_error_message(remote: Seq<char>) -> Seq<char> {
    "error response from InfluxDB: "@ + remote
}

impl Client {
    /// The token that queries are authorized with.
    pub closed spec fn read_token(self) -> Seq<char> {
        self.read_token@
    }

    /// The organization that queries are made for.
    pub closed spec fn org(self) -> Seq<char> {
        self.org@
    }

    /// The bucket that queries read from.
    pub closed spec fn bucket(self) -> Seq<char> {
        self.bucket@
    }

    /// A client for the given token, organization and bucket.
    pub fn new(read_token: &str, org: &str, bucket: &str) -> (client: Client)
        ensures
            client.read_token() == read_token@,
            client.org() == org@,
            client.bucket() == bucket@,
    {
        Client {
            read_token: read_token.to_owned(),
            org: org.to_owned(),
            bucket: bucket.to_owned(),
            query_builder: QueryBuilder::new(),
        }
    }

    /// Makes the request for a query: renders `template` with `params` and with the
    /// client's bucket as the parameter `bucket`, which takes the place of a parameter
    /// of that name in `params`. Fails where the template names a parameter that is
    /// not set.
    pub fn flux_query(&self, template: &str, params: FluxParams) -> (r: Result<
        QueryRequest,
        TemplateError,
    >)
        ensures
            match r {
                Ok(request) => {
                    &&& rendered_query(
                        template@,
                        literals(params@).insert("bucket"@, quoted(self.bucket())),
                    ) == Ok::<Seq<char>, Seq<char>>(request.body@)
                    &&& request.path@ == QUERY_PATH@
                    &&& request.org@ == self.org()
                    &&& request.content_type@ == QUERY_CONTENT_TYPE@
                    &&& request.accept@ == RESULT_CONTENT_TYPE@
                    &&& request.authorization@ == "Token "@ + self.read_token()
                },
                Err(e) => rendered_query(
                    template@,
                    literals(params@).insert("bucket"@, quoted(self.bucket())),
                ) == Err::<Seq<char>, Seq<char>>(e.identifier@),
            },
    {
        let mut params = params;
        let ghost given = params@;
        let bucket = FluxValue::Comparable(Comparable::String(self.bucket.clone()));
        params.insert("bucket", bucket);
        assert(literals(params@) =~= literals(given).insert("bucket"@, quoted(self.bucket())));
        match self.query_builder.generate_query(template, &params) {
            Ok(body) => {
                let mut authorization = String::from_str("Token ");
                authorization.append(self.read_token.as_str());
                Ok(
                    QueryRequest {
                        path: QUERY_PATH.to_owned(),
                        org: self.org.clone(),
                        content_type: QUERY_CONTENT_TYPE.to_owned(),
                        accept: RESULT_CONTENT_TYPE.to_owned(),
                        authorization,
                        body,
                    },
                )
            },
            Err(e) => Err(e),
        }
    }

    /// What the answer of the query service means: nothing is wrong where the status
    /// is a success; otherwise the error holds the message of the service, or no words
    /// of the service where it gave none that could be read.
    pub fn check_response(success: bool, message: Option<String>) -> (r: Result<
        (),
        RemoteQueryError,
    >)
        ensures
            success <==> r is Ok,
            r matches Err(e) ==> e.message@ == remote_error_message(
                match message {
                    Some(words) => words@,
                    None => Seq::empty(),
                },
            ),
    {
        if success {
            Ok(())
        } else {
            let mut text = String::from_str("error response from InfluxDB: ");
            match message {
                Some(words) => {
                    text.append(words.as_str());
                },
                None => {
                    assert(text@ + Seq::<char>::empty() =~= text@);
                },
            }
            Err(RemoteQueryError { message: text })
        }
    }
}

} // verus!
