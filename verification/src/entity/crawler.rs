use vstd::prelude::*;
use crate::entity::pixlie::ToolEnabled;

verus! {

/// Settings of the crawler, as suggested for an objective.
#[derive(Debug)]
pub struct CrawlerSettings {
    pub is_enabled: ToolEnabled,
    pub keywords_to_get_accurate_results_from_web_search: Option<Vec<String>>,
    pub crawl_link_if_anchor_text_has_any_of_these_keywords: Option<Vec<String>>,
}

/// The contents of crawler settings, with lists as sequences.
pub struct CrawlerSettingsView {
    pub is_enabled: ToolEnabled,
    pub keywords_to_get_accurate_results_from_web_search: Option<Seq<String>>,
    pub crawl_link_if_anchor_text_has_any_of_these_keywords: Option<Seq<String>>,
}

pub open spec fn opt_strings_view(o: Option<Vec<String>>) -> Option<Seq<String>> {
    match o {
        Some(v) => Some(v@),
        None => None,
    }
}

pub fn clone_opt_strings(o: &Option<Vec<String>>) -> (r: Option<Vec<String>>)
    ensures
        opt_strings_view(r) == opt_strings_view(*o),
{
    match o {
        Some(v) => {
            let c = v.clone();
            assert(c@ =~= v@);
            Some(c)
        },
        None => None,
    }
}

impl View for CrawlerSettings {
    type V = CrawlerSettingsView;

    open spec fn view(&self) -> CrawlerSettingsView {
        CrawlerSettingsView {
            is_enabled: self.is_enabled,
            keywords_to_get_accurate_results_from_web_search: opt_strings_view(
                self.keywords_to_get_accurate_results_from_web_search,
            ),
            crawl_link_if_anchor_text_has_any_of_these_keywords: opt_strings_view(
                self.crawl_link_if_anchor_text_has_any_of_these_keywords,
            ),
        }
    }
}

impl Clone for CrawlerSettings {
    fn clone(&self) -> (r: Self)
        ensures
            r@ == self@,
    {
        CrawlerSettings {
            is_enabled: self.is_enabled,
            keywords_to_get_accurate_results_from_web_search: clone_opt_strings(
                &self.keywords_to_get_accurate_results_from_web_search,
            ),
            crawl_link_if_anchor_text_has_any_of_these_keywords: clone_opt_strings(
                &self.crawl_link_if_anchor_text_has_any_of_these_keywords,
            ),
        }
    }
}

} // verus!

verus! {

use crate::engine::graph::Engine;
use crate::engine::node::NodeItem;
use crate::error::PiResult;
use crate::fetch::ExternalData;

/// A condition on which links the crawler follows.
pub struct CrawlCondition;

impl CrawlCondition {
    /// Processing a crawl condition does nothing yet.
    pub fn process(&self, _node: &NodeItem, _engine: &Engine, _data_from_previous_request: Option<ExternalData>) -> (r: PiResult<()>)
        ensures
            r is Ok,
    {
        Ok(())
    }
}

} // verus!
