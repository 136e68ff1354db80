use vstd::prelude::*;
use crate::engine::graph::{connected_ids, Engine};
use crate::engine::labels::{CommonEdgeLabels, NodeId};
use crate::engine::node::{Payload, PayloadView};
use crate::entity::web::link::{domain_node_of, Link};
use crate::error::{PiError, PiErrorKind, PiResult};
use crate::text::{concat, has_prefix, starts_with, str_eq};
use crate::web_url::{join_url, url_joined};

verus! {

/// High level settings that guide the crawl of a project.
#[derive(Clone, Copy, Debug, PartialEq, Eq, Structural)]
pub struct ProjectSettings {
    pub only_extract_data_from_specified_links: bool,
    pub only_crawl_direct_links_from_specified_links: bool,
    pub only_crawl_within_domains_of_specified_links: bool,
}

/// True when the node is a link whose domain node is named `domain`.
pub open spec fn link_in_domain(e: &Engine, id: NodeId, domain: Seq<char>) -> bool {
    &&& e.node_map().contains_key(id)
    &&& e.node_map()[id].payload is Link
    &&& domain_node_of(e, id) matches Some(d) && e.node_map()[d].payload matches PayloadView::Text(t)
        && t@ == domain
}

/// True when one of the nodes is a link whose domain node is named `domain`.
pub open spec fn some_link_in_domain(e: &Engine, ids: Seq<NodeId>, domain: Seq<char>) -> bool {
    exists|j: int| 0 <= j < ids.len() && #[trigger] link_in_domain(e, ids[j], domain)
}

/// Whether links found on the page at `page_url`, reached through the link
/// node `link_id`, may be followed under these settings; `link` is the link
/// as written on the page.
pub open spec fn scrape_decision(e: &Engine, s: ProjectSettings, settings_id: NodeId, link_id: NodeId, page_url: Seq<char>, link: Seq<char>) -> Result<bool, PiErrorKind> {
    let related = connected_ids(e, settings_id, CommonEdgeLabels::RelatedTo);
    if s.only_extract_data_from_specified_links {
        Ok(false)
    } else if s.only_crawl_direct_links_from_specified_links && related.contains(link_id) {
        Ok(true)
    } else if s.only_crawl_within_domains_of_specified_links {
        if has_prefix(link, "/"@) {
            Ok(true)
        } else {
            match url_joined(page_url, link) {
                None => Ok(false),
                Some(parts) => match parts.0 {
                    None => Err(PiErrorKind::InternalError),
                    Some(domain) => Ok(some_link_in_domain(e, related, domain)),
                },
            }
        }
    } else {
        Ok(false)
    }
}

impl ProjectSettings {
    /// Decides whether a link found on the page at `current_link` may be
    /// followed: never when data is taken only from the specified links;
    /// always when the page is one of the specified links and crawling
    /// stays on them; when crawling stays within their domains, for links
    /// relative to the site and for links into one of those domains.
    #[verifier::loop_isolation(false)]
    pub fn can_scrape_link(&self, project_settings_node_id: &NodeId, link_node_id: &NodeId, current_link: &str, link: &str, engine: &Engine) -> (r: PiResult<bool>)
        requires
            engine.wf(),
        ensures
            match r {
                Ok(b) => scrape_decision(engine, *self, *project_settings_node_id, *link_node_id, current_link@, link@) == Ok::<bool, PiErrorKind>(b),
                Err(e) => scrape_decision(engine, *self, *project_settings_node_id, *link_node_id, current_link@, link@) == Err::<bool, PiErrorKind>(e.kind()),
            },
    {
        if self.only_extract_data_from_specified_links {
            return Ok(false);
        }
        if self.only_crawl_direct_links_from_specified_links {
            let related = engine.get_node_ids_connected_with_label(project_settings_node_id, &CommonEdgeLabels::RelatedTo);
            if crate::engine::graph::ids_contain(&related, *link_node_id) {
                return Ok(true);
            }
        }
        if self.only_crawl_within_domains_of_specified_links {
            proof {
                reveal_strlit("/");
            }
            if starts_with(link, "/") {
                return Ok(true);
            }
            let joined = match join_url(current_link, link) {
                Some(u) => u,
                None => {
                    return Ok(false);
                },
            };
            let ghost jp = joined.parts();
            let domain = match &joined.domain {
                Some(d) => d.clone(),
                None => {
                    return Err(PiError::InternalError(concat("Cannot parse URL to get domain: ", joined.serialized.as_str())));
                },
            };
            let related = engine.get_node_ids_connected_with_label(project_settings_node_id, &CommonEdgeLabels::RelatedTo);
            let ghost rel = related@;
            let mut i: usize = 0;
            while i < related.len()
                invariant
                    engine.wf(),
                    rel == related@,
                    rel == connected_ids(engine, *project_settings_node_id, CommonEdgeLabels::RelatedTo),
                    i <= rel.len(),
                    forall|j: int| 0 <= j < i ==> !link_in_domain(engine, #[trigger] rel[j], domain@),
                decreases rel.len() - i,
            {
                let id = related[i];
                let is_link = match engine.get_node_by_id(&id) {
                    Some(node) => match &node.payload {
                        Payload::Link(_) => true,
                        _ => false,
                    },
                    None => false,
                };
                if is_link {
                    match Link::get_domain_node(&id, engine) {
                        Ok(Some((_, dn))) => {
                            match &dn.payload {
                                Payload::Text(t) => {
                                    if str_eq(t.as_str(), domain.as_str()) {
                                        assert(link_in_domain(engine, rel[i as int], domain@));
                                        assert(some_link_in_domain(engine, rel, domain@));
                                        return Ok(true);
                                    }
                                },
                                _ => {},
                            }
                        },
                        _ => {},
                    }
                }
                i = i + 1;
            }
            assert(!some_link_in_domain(engine, rel, domain@));
            return Ok(false);
        }
        Ok(false)
    }
}

} // verus!

verus! {

/// Whether links into `domain` that a web search found may be added under
/// these settings: never when data is taken only from the specified links
/// or crawling follows only their direct links; when crawling stays within
/// their domains, only for those domains; otherwise always.
pub open spec fn domain_allowed(e: &Engine, s: ProjectSettings, settings_id: NodeId, domain: Seq<char>) -> bool {
    if s.only_extract_data_from_specified_links || s.only_crawl_direct_links_from_specified_links {
        false
    } else if s.only_crawl_within_domains_of_specified_links {
        some_link_in_domain(e, connected_ids(e, settings_id, CommonEdgeLabels::RelatedTo), domain)
    } else {
        true
    }
}

impl ProjectSettings {
    /// Decides whether links into `domain` that a web search found may be
    /// added.
    #[verifier::loop_isolation(false)]
    pub fn is_domain_allowed(&self, project_settings_node_id: &NodeId, domain: &str, engine: &Engine) -> (r: PiResult<bool>)
        requires
            engine.wf(),
        ensures
            r == Ok::<bool, PiError>(domain_allowed(engine, *self, *project_settings_node_id, domain@)),
    {
        if self.only_extract_data_from_specified_links || self.only_crawl_direct_links_from_specified_links {
            return Ok(false);
        }
        if !self.only_crawl_within_domains_of_specified_links {
            return Ok(true);
        }
        let related = engine.get_node_ids_connected_with_label(project_settings_node_id, &CommonEdgeLabels::RelatedTo);
        let ghost rel = related@;
        let mut i: usize = 0;
        while i < related.len()
            invariant
                engine.wf(),
                rel == related@,
                rel == connected_ids(engine, *project_settings_node_id, CommonEdgeLabels::RelatedTo),
                i <= rel.len(),
                forall|j: int| 0 <= j < i ==> !link_in_domain(engine, #[trigger] rel[j], domain@),
            decreases rel.len() - i,
        {
            let id = related[i];
            let is_link = match engine.get_node_by_id(&id) {
                Some(node) => match &node.payload {
                    Payload::Link(_) => true,
                    _ => false,
                },
                None => false,
            };
            if is_link {
                match Link::get_domain_node(&id, engine) {
                    Ok(Some((_, dn))) => {
                        match &dn.payload {
                            Payload::Text(t) => {
                                if str_eq(t.as_str(), domain) {
                                    assert(link_in_domain(engine, rel[i as int], domain@));
                                    assert(some_link_in_domain(engine, rel, domain@));
                                    return Ok(true);
                                }
                            },
                            _ => {},
                        }
                    },
                    _ => {},
                }
            }
            i = i + 1;
        }
        assert(!some_link_in_domain(engine, rel, domain@));
        Ok(false)
    }
}

} // verus!
