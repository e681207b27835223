use dta4hana::error::DtaError;
use dta4hana::pipeline::{pipeline_result, run_round, PipelineMode, PipelineState};
use dta4hana::twitter_client::{TwitterAppUserCredential, TwitterClientTrait};
use dta4hana::twitter_object::{PublicMetrics, Tweet};
use std::cell::RefCell;

fn tweet(id: &str) -> Tweet {
    Tweet {
        id: String::from(id),
        created_at: String::from("2022-01-01T00:00:00Z"),
        public_metrics: PublicMetrics { retweet_count: 0, reply_count: 0, like_count: 0, quote_count: 0 },
        attachments: None,
    }
}

/// A transport stub: serves one prepared page per fetch, records every
/// action, and fails actions on the configured ids.
struct StubClient {
    pages: RefCell<Vec<Vec<Tweet>>>,
    fetch_fails: bool,
    acted_ids: RefCell<Vec<String>>,
    fail_ids: Vec<String>,
    fetch_calls: RefCell<u64>,
}

impl StubClient {
    fn with_pages(pages: Vec<Vec<Tweet>>) -> StubClient {
        StubClient {
            pages: RefCell::new(pages),
            fetch_fails: false,
            acted_ids: RefCell::new(Vec::new()),
            fail_ids: Vec::new(),
            fetch_calls: RefCell::new(0),
        }
    }

    fn act(&self, tweet_id_str: &str) -> Result<(), DtaError> {
        self.acted_ids.borrow_mut().push(String::from(tweet_id_str));
        if self.fail_ids.iter().any(|x| x == tweet_id_str) {
            Err(DtaError::TransportError)
        } else {
            Ok(())
        }
    }

    fn fetch(&self) -> Result<Vec<Tweet>, DtaError> {
        *self.fetch_calls.borrow_mut() += 1;
        if self.fetch_fails {
            return Err(DtaError::TransportError);
        }
        let mut pages = self.pages.borrow_mut();
        if pages.is_empty() {
            Ok(Vec::new())
        } else {
            Ok(pages.remove(0))
        }
    }
}

impl TwitterClientTrait for StubClient {
    fn new(
        _api_key: String,
        _consumer_key: String,
        _consumer_secret: String,
        _user_cred: Option<TwitterAppUserCredential>,
    ) -> Self {
        StubClient::with_pages(Vec::new())
    }

    fn delete_liked(&self, tweet_id_str: &str) -> Result<(), DtaError> {
        self.act(tweet_id_str)
    }

    fn delete_tweet(&self, tweet_id_str: &str) -> Result<(), DtaError> {
        self.act(tweet_id_str)
    }

    fn fetch_timeline(
        &self,
        _since: Option<String>,
        _until: Option<String>,
    ) -> Result<Vec<Tweet>, DtaError> {
        self.fetch()
    }

    fn fetch_likes(&self) -> Result<Vec<Tweet>, DtaError> {
        self.fetch()
    }

    fn init_user_cred(self, _user_cred: TwitterAppUserCredential) -> Result<Self, DtaError> {
        Ok(self)
    }

    fn login(&self) -> Result<TwitterAppUserCredential, DtaError> {
        Err(DtaError::CredentialExchangeFailed)
    }

    fn pause(&self) {}
}

/// A stub whose single-item action is not implemented: the run must never
/// reach it.
struct UnlikeUnimplementedClient {
    inner: StubClient,
}

impl TwitterClientTrait for UnlikeUnimplementedClient {
    fn new(
        _api_key: String,
        _consumer_key: String,
        _consumer_secret: String,
        _user_cred: Option<TwitterAppUserCredential>,
    ) -> Self {
        UnlikeUnimplementedClient { inner: StubClient::with_pages(Vec::new()) }
    }

    fn delete_liked(&self, _tweet_id_str: &str) -> Result<(), DtaError> {
        panic!("delete_liked must not be reached")
    }

    fn delete_tweet(&self, _tweet_id_str: &str) -> Result<(), DtaError> {
        panic!("delete_tweet must not be reached")
    }

    fn fetch_timeline(
        &self,
        since: Option<String>,
        until: Option<String>,
    ) -> Result<Vec<Tweet>, DtaError> {
        self.inner.fetch_timeline(since, until)
    }

    fn fetch_likes(&self) -> Result<Vec<Tweet>, DtaError> {
        self.inner.fetch_likes()
    }

    fn init_user_cred(self, _user_cred: TwitterAppUserCredential) -> Result<Self, DtaError> {
        Ok(self)
    }

    fn login(&self) -> Result<TwitterAppUserCredential, DtaError> {
        Err(DtaError::CredentialExchangeFailed)
    }

    fn pause(&self) {}
}

/// Drive the pipeline to its end, the way the application layer does.
fn run_pipeline<C: TwitterClientTrait>(
    client: &C,
    mode: PipelineMode,
    since: Option<String>,
    until: Option<String>,
) -> Result<u64, DtaError> {
    let mut acted: u64 = 0;
    loop {
        let st = run_round(client, mode, &since, &until, acted);
        match st {
            PipelineState::FetchingBatch { acted: a } => {
                acted = a;
            }
            PipelineState::Done { .. } | PipelineState::Aborted { .. } => {
                return pipeline_result(&st);
            }
            PipelineState::ActingOnBatch { .. } => unreachable!(),
        }
    }
}

#[test]
fn delete_tweets_all() {
    let tw_client = StubClient::with_pages(vec![]);
    let result = run_pipeline(&tw_client, PipelineMode::DeleteTweets, None, None);
    assert_eq!(result.is_ok(), true);
}

#[test]
fn delete_tweets_in_the_period() {
    let tw_client = StubClient::with_pages(vec![]);
    let result = run_pipeline(
        &tw_client,
        PipelineMode::DeleteTweets,
        Some(String::from("2022-01-01")),
        Some(String::from("2022-12-31")),
    );
    assert_eq!(result.is_ok(), true);
}

#[test]
fn delete_tweets_except_protected() {
    let tw_client = StubClient::with_pages(vec![]);
    let result = run_pipeline(&tw_client, PipelineMode::DeleteTweets, None, None);
    assert_eq!(result.is_ok(), true);
}

#[test]
fn unlike_likes_all() {
    let tw_client = UnlikeUnimplementedClient::new(
        String::new(),
        String::new(),
        String::new(),
        None,
    );
    let result = run_pipeline(&tw_client, PipelineMode::UnlikeLikes, None, None);
    assert_eq!(result.is_ok(), true);
}

#[test]
fn empty_fetch_means_one_fetch_and_success() {
    let tw_client = StubClient::with_pages(vec![]);
    let result = run_pipeline(&tw_client, PipelineMode::DeleteTweets, None, None);
    assert_eq!(result, Ok(0));
    assert_eq!(*tw_client.fetch_calls.borrow(), 1);
    assert!(tw_client.acted_ids.borrow().is_empty());

    let tw_client2 = StubClient::with_pages(vec![]);
    let result2 = run_pipeline(&tw_client2, PipelineMode::UnlikeLikes, None, None);
    assert_eq!(result2, Ok(0));
    assert_eq!(*tw_client2.fetch_calls.borrow(), 1);
}

#[test]
fn failed_fetch_ends_run_cleanly() {
    let mut tw_client = StubClient::with_pages(vec![]);
    tw_client.fetch_fails = true;
    let result = run_pipeline(&tw_client, PipelineMode::DeleteTweets, None, None);
    assert_eq!(result, Ok(0));
    assert_eq!(*tw_client.fetch_calls.borrow(), 1);
}

#[test]
fn delete_stops_at_first_failed_action() {
    let mut tw_client =
        StubClient::with_pages(vec![vec![tweet("1"), tweet("2"), tweet("3"), tweet("4")]]);
    tw_client.fail_ids = vec![String::from("2")];
    let result = run_pipeline(&tw_client, PipelineMode::DeleteTweets, None, None);
    assert_eq!(result, Err(DtaError::ActionFailed { id: String::from("2") }));
    // nothing after the failing item was attempted in that batch
    assert_eq!(*tw_client.acted_ids.borrow(), vec![String::from("1"), String::from("2")]);
    assert_eq!(*tw_client.fetch_calls.borrow(), 1);
}

#[test]
fn unlike_continues_past_failed_action() {
    let mut tw_client =
        StubClient::with_pages(vec![vec![tweet("1"), tweet("2"), tweet("3"), tweet("4")]]);
    tw_client.fail_ids = vec![String::from("2")];
    let result = run_pipeline(&tw_client, PipelineMode::UnlikeLikes, None, None);
    assert_eq!(result, Ok(3));
    // every item of the batch was attempted, in returned order
    assert_eq!(
        *tw_client.acted_ids.borrow(),
        vec![String::from("1"), String::from("2"), String::from("3"), String::from("4")]
    );
    assert_eq!(*tw_client.fetch_calls.borrow(), 2);
}

#[test]
fn delete_refetches_until_empty_and_counts_actions() {
    let tw_client = StubClient::with_pages(vec![vec![tweet("1"), tweet("2")]]);
    let result = run_pipeline(&tw_client, PipelineMode::DeleteTweets, None, None);
    assert_eq!(result, Ok(2));
    assert_eq!(*tw_client.acted_ids.borrow(), vec![String::from("1"), String::from("2")]);
    // the batch was worked through, then the refetch returned nothing
    assert_eq!(*tw_client.fetch_calls.borrow(), 2);
}
