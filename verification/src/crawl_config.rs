use vstd::prelude::*;

verus! {

/// Options of the crawler program.
#[derive(Clone, Debug)]
pub struct Cli {
    /// Print each page visited on standard output.
    pub verbose: bool,
    /// Host on which the MQTT server runs.
    pub mqtt_host: String,
    /// Port on which the MQTT server runs.
    pub mqtt_port: u16,
    /// Respect `robots.txt` files.
    pub respect_robots_txt: bool,
}

impl Cli {
    /// The options when none is given: quiet, the MQTT server on
    /// `localhost:1883`, `robots.txt` not respected.
    pub fn defaults() -> (r: Cli)
        ensures
            !r.verbose,
            r.mqtt_host@ == "localhost"@,
            r.mqtt_port == 1883,
            !r.respect_robots_txt,
    {
        Cli { verbose: false, mqtt_host: String::from_str("localhost"), mqtt_port: 1883, respect_robots_txt: false }
    }
}

/// A request to crawl a website.
#[derive(Clone, Debug)]
pub struct CrawlRequest {
    /// The URL of the website.
    pub url: String,
    /// Whether sub-domains are crawled too.
    pub subdomains: bool,
}

/// Errors of the data layer that the crawler shares with its desktop app.
#[derive(Clone, Copy, Debug, PartialEq, Eq, Structural)]
pub enum LibDwataError {
    CouldNotCreateDwataDB,
    CouldNotConnectToDwataDB,
    CouldNotInsertToDwataDB,
    CouldNotUpdateDwataDB,
    CouldNotFetchDataFromDwataDB,
    CouldNotMigrateDwataDB,
    InvalidAIModel,
    CouldNotConnectToAIProvider,
    CouldNotGenerateEmbedding,
    FeatureNotAvailableWithAIProvider,
    InvalidProcessStatus,
    ChatHasNoMessage,
    NoRequestedAIModel,
    BeingProcessedByAI,
    AlreadyProcessedByAI,
    ChatHasNoRootId,
    ToolUseNotSupported,
    CouldNotConnectToVectorDB,
    CouldNotFindNode,
    CouldNotOpenDirectory,
    InvalidTaskStatus,
    TaskHasRunRecently,
    AppStateNotFound,
    CouldNotConnectToAPI,
    CouldNotParseEnum,
    CouldNotCreateSearchIndex,
    SearchIndexDoesNotExist,
    CouldNotOpenSearchIndex,
    CouldNotParseSearchQuery,
    CouldNotSearchTheIndex,
}

} // verus!
