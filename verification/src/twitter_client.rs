//! The client seam: credentials, the transport trait that the pipeline
//! drives, and the endpoint paths of every call the workflow makes.
//!
//! The trait is implemented outside this crate by the real HTTP transport
//! (and by stubs in tests); the pipeline and the login flow are verified
//! against it for every behaviour an implementation can have.
use crate::error::DtaError;
use crate::signer::QueryParam;
use crate::twitter_object::Tweet;
use vstd::prelude::*;
use vstd::string::StringExecFns;

verus! {

/// App-side credentials, fixed for the process lifetime.
pub struct TwitterAppCredential {
    pub api_key: String,
    pub consumer_key: String,
    pub consumer_secret: String,
}

/// User-side credentials, produced once by the login exchange.
pub struct TwitterAppUserCredential {
    pub username: String,
    pub id: String,
    pub oauth_token: String,
    pub oauth_token_secret: String,
}

impl Clone for TwitterAppUserCredential {
    fn clone(&self) -> (r: Self)
        ensures
            r.username@ == self.username@,
            r.id@ == self.id@,
            r.oauth_token@ == self.oauth_token@,
            r.oauth_token_secret@ == self.oauth_token_secret@,
    {
        TwitterAppUserCredential {
            username: self.username.clone(),
            id: self.id.clone(),
            oauth_token: self.oauth_token.clone(),
            oauth_token_secret: self.oauth_token_secret.clone(),
        }
    }
}

/// What a transport must offer: fetch one page of targets, act on one
/// target, pace between calls, and run the login exchange.  Nothing is
/// assumed of any implementation; the pipeline handles every outcome.
pub trait TwitterClientTrait: Sized {
    /// Construct a client from the app credentials and, if already known,
    /// the user credential.
    fn new(
        api_key: String,
        consumer_key: String,
        consumer_secret: String,
        user_cred: Option<TwitterAppUserCredential>,
    ) -> Self;

    /// Remove one tweet from the user's liked tweets.
    fn delete_liked(&self, tweet_id_str: &str) -> Result<(), DtaError>;

    /// Delete one of the user's tweets.
    fn delete_tweet(&self, tweet_id_str: &str) -> Result<(), DtaError>;

    /// Fetch the next page of the user's tweets, optionally bounded by a
    /// since/until date window.
    fn fetch_timeline(&self, since: Option<String>, until: Option<String>) -> Result<
        Vec<Tweet>,
        DtaError,
    >;

    /// Fetch the next page of the user's liked tweets.
    fn fetch_likes(&self) -> Result<Vec<Tweet>, DtaError>;

    /// Load a user credential into the client.
    fn init_user_cred(self, user_cred: TwitterAppUserCredential) -> Result<Self, DtaError>;

    /// Run the interactive login exchange and return the user credential.
    fn login(&self) -> Result<TwitterAppUserCredential, DtaError>;

    /// Pause between successive actions, for rate-limit avoidance.
    fn pause(&self);
}

/// The user credential, or `SigningPrerequisiteMissing` when none is
/// loaded: `Ok` exactly when a credential is present.
pub fn require_user_cred(cred: &Option<TwitterAppUserCredential>) -> (r: Result<
    &TwitterAppUserCredential,
    DtaError,
>)
    ensures
        match cred {
            Some(c) => r matches Ok(rc) && rc == c,
            None => r matches Err(e) && e is SigningPrerequisiteMissing,
        },
{
    match cred {
        Some(c) => Ok(c),
        None => Err(DtaError::SigningPrerequisiteMissing),
    }
}

/// The path of the username-lookup endpoint.
pub fn user_lookup_path(username: &str) -> (r: String)
    ensures
        r@ == "2/users/by/username/"@ + username@,
{
    let mut s = String::new();
    s.append("2/users/by/username/");
    s.append(username);
    proof {
        assert(s@ =~= "2/users/by/username/"@ + username@);
    }
    s
}

/// The path of the request-token step, with out-of-band callback.
pub fn request_token_path(consumer_key: &str) -> (r: String)
    ensures
        r@ == "oauth/request_token?oauth_consumer_key="@ + consumer_key@ + "&oauth_callback=oob"@,
{
    let mut s = String::new();
    s.append("oauth/request_token?oauth_consumer_key=");
    s.append(consumer_key);
    s.append("&oauth_callback=oob");
    proof {
        assert(s@ =~= "oauth/request_token?oauth_consumer_key="@ + consumer_key@
            + "&oauth_callback=oob"@);
    }
    s
}

/// The path of the out-of-band authorization page for a request token.
pub fn authorize_path(request_token: &str) -> (r: String)
    ensures
        r@ == "oauth/authorize?oauth_token="@ + request_token@,
{
    let mut s = String::new();
    s.append("oauth/authorize?oauth_token=");
    s.append(request_token);
    proof {
        assert(s@ =~= "oauth/authorize?oauth_token="@ + request_token@);
    }
    s
}

/// The path of the access-token exchange for a request token and the
/// verifier the operator typed.
pub fn access_token_path(request_token: &str, verifier: &str) -> (r: String)
    ensures
        r@ == "oauth/access_token?oauth_token="@ + request_token@ + "&oauth_verifier="@
            + verifier@,
{
    let mut s = String::new();
    s.append("oauth/access_token?oauth_token=");
    s.append(request_token);
    s.append("&oauth_verifier=");
    s.append(verifier);
    proof {
        assert(s@ =~= "oauth/access_token?oauth_token="@ + request_token@ + "&oauth_verifier="@
            + verifier@);
    }
    s
}

/// The path that deletes one tweet.
pub fn destroy_status_path(tweet_id: &str) -> (r: String)
    ensures
        r@ == "1.1/statuses/destroy/"@ + tweet_id@ + ".json"@,
{
    let mut s = String::new();
    s.append("1.1/statuses/destroy/");
    s.append(tweet_id);
    s.append(".json");
    proof {
        assert(s@ =~= "1.1/statuses/destroy/"@ + tweet_id@ + ".json"@);
    }
    s
}

/// The path that removes one liked tweet.
pub fn destroy_favorite_path() -> (r: String)
    ensures
        r@ == "1.1/favorites/destroy.json"@,
{
    let mut s = String::new();
    s.append("1.1/favorites/destroy.json");
    proof {
        assert(s@ =~= "1.1/favorites/destroy.json"@);
    }
    s
}

/// The path of the user's tweets.
pub fn user_tweets_path(user_id: &str) -> (r: String)
    ensures
        r@ == "2/users/"@ + user_id@ + "/tweets"@,
{
    let mut s = String::new();
    s.append("2/users/");
    s.append(user_id);
    s.append("/tweets");
    proof {
        assert(s@ =~= "2/users/"@ + user_id@ + "/tweets"@);
    }
    s
}

/// The path of the user's liked tweets.
pub fn liked_tweets_path(user_id: &str) -> (r: String)
    ensures
        r@ == "2/users/"@ + user_id@ + "/liked_tweets"@,
{
    let mut s = String::new();
    s.append("2/users/");
    s.append(user_id);
    s.append("/liked_tweets");
    proof {
        assert(s@ =~= "2/users/"@ + user_id@ + "/liked_tweets"@);
    }
    s
}

/// The character contents of a list of query parameters.
pub open spec fn qp_chars(qs: Seq<QueryParam>) -> Seq<(Seq<char>, Seq<char>)> {
    qs.map_values(|q: QueryParam| (q.key@, q.value@))
}

/// The two fixed parameters of every fetch: the page bound at the API's
/// maximum, and the record fields the pipeline keeps.
pub open spec fn spec_fetch_base_params() -> Seq<(Seq<char>, Seq<char>)> {
    seq![
        ("max_results"@, "100"@),
        ("tweet.fields"@, "created_at,public_metrics,attachments"@),
    ]
}

/// The parameters of a timeline fetch: the fixed two, then the date window
/// bounds that were given, each widened to a start-of-day instant.
pub open spec fn spec_timeline_params(since: Option<Seq<char>>, until: Option<Seq<char>>) -> Seq<
    (Seq<char>, Seq<char>),
> {
    let with_until = match until {
        Some(u) => spec_fetch_base_params().push(("end_time"@, u + "T00:00:00Z"@)),
        None => spec_fetch_base_params(),
    };
    match since {
        Some(s) => with_until.push(("start_time"@, s + "T00:00:00Z"@)),
        None => with_until,
    }
}

/// Build the query parameters of a timeline fetch.
pub fn timeline_query_params(since: &Option<String>, until: &Option<String>) -> (r: Vec<
    QueryParam,
>)
    ensures
        forall|i: int| 0 <= i < r@.len() ==> (#[trigger] r@[i]).wf(),
        qp_chars(r@) == spec_timeline_params(
            match since {
                Some(s) => Some(s@),
                None => None,
            },
            match until {
                Some(u) => Some(u@),
                None => None,
            },
        ),
{
    let mut ps: Vec<QueryParam> = Vec::new();
    ps.push(QueryParam::new("max_results", "100"));
    ps.push(QueryParam::new("tweet.fields", "created_at,public_metrics,attachments"));
    proof {
        assert(qp_chars(ps@) =~= spec_fetch_base_params());
    }
    let ghost with_base = ps@;
    match until {
        Some(u) => {
            let d = expand_date(u.as_str());
            ps.push(QueryParam::new("end_time", d.as_str()));
            proof {
                assert(qp_chars(ps@) =~= qp_chars(with_base).push(("end_time"@, u@
                    + "T00:00:00Z"@)));
            }
        },
        None => {
        },
    }
    let ghost with_until = ps@;
    match since {
        Some(s) => {
            let d = expand_date(s.as_str());
            ps.push(QueryParam::new("start_time", d.as_str()));
            proof {
                assert(qp_chars(ps@) =~= qp_chars(with_until).push(("start_time"@, s@
                    + "T00:00:00Z"@)));
            }
        },
        None => {
        },
    }
    ps
}

/// Build the query parameters of a likes fetch: the fixed two alone.
pub fn likes_query_params() -> (r: Vec<QueryParam>)
    ensures
        forall|i: int| 0 <= i < r@.len() ==> (#[trigger] r@[i]).wf(),
        qp_chars(r@) == spec_fetch_base_params(),
{
    let mut ps: Vec<QueryParam> = Vec::new();
    ps.push(QueryParam::new("max_results", "100"));
    ps.push(QueryParam::new("tweet.fields", "created_at,public_metrics,attachments"));
    proof {
        assert(qp_chars(ps@) =~= spec_fetch_base_params());
    }
    ps
}

/// A date bound widened to the start-of-day instant the endpoint expects.
pub fn expand_date(date: &str) -> (r: String)
    ensures
        r@ == date@ + "T00:00:00Z"@,
{
    let mut s = String::new();
    s.append(date);
    s.append("T00:00:00Z");
    proof {
        assert(s@ =~= date@ + "T00:00:00Z"@);
    }
    s
}

} // verus!
