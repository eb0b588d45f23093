//! The view of the agent panel that a client may put in place of the usual one.

use vstd::prelude::*;
use vstd::string::*;
use crate::response::{error, refusal, ApiError, Refusal, Response};
use crate::search::{first_where, lemma_first_where, lemma_is_first};
use crate::text::{chars_of, clone_opt_text, opt_view, same_text};

verus! {

/// A view: who put it there, what it is called, and what it selects and how it sorts.
#[derive(Debug)]
pub struct AgentView {
    pub source: String,
    pub label: Option<String>,
    pub selection: String,
}

#[derive(Debug)]
pub struct Plugin {
    pub id: String,
    pub enabled: bool,
}

/// The view in force, and how far the lists that it changes are scrolled.
#[derive(Debug)]
pub struct AgentViewState {
    pub current: Option<AgentView>,
    pub agent_panel_scroll: usize,
    pub mobile_switcher_scroll: usize,
}

#[derive(Debug)]
pub struct AgentViewReply {
    pub active: bool,
    pub source: Option<String>,
    pub label: Option<String>,
}

pub open spec fn plugin_mark() -> Seq<char> {
    seq!['p', 'l', 'u', 'g', 'i', 'n', ':']
}

/// The part of a source after `plugin:`, where it starts so.
pub open spec fn plugin_part(source: Seq<char>) -> Option<Seq<char>> {
    if plugin_mark().is_prefix_of(source) {
        Some(source.skip(7))
    } else {
        None
    }
}

pub open spec fn plugin_at(plugins: Seq<Plugin>, id: Seq<char>) -> Option<int> {
    first_where(plugins, |p: Plugin| p.id@ == id)
}

/// Why a plugin may not put a view: its id cannot be one, it is not installed, or it is off.
pub open spec fn plugin_refusal(
    source: Seq<char>,
    plugin_id: Option<Seq<char>>,
    plugins: Seq<Plugin>,
) -> Option<Refusal> {
    match (plugin_part(source), plugin_id) {
        (None, _) => None,
        (Some(_), None) => Some(
            refusal(
                "invalid_agent_view"@,
                "plugin-owned agent view source has an invalid plugin id"@,
            ),
        ),
        (Some(_), Some(id)) => match plugin_at(plugins, id) {
            None => Some(refusal("plugin_not_found"@, "plugin not found"@)),
            Some(i) => if plugins[i].enabled {
                None
            } else {
                Some(refusal("plugin_disabled"@, "plugin is disabled"@))
            },
        },
    }
}

/// The part of a source after `plugin:`, for the plugin's id to be made of.
pub fn plugin_source<'a>(source: &'a str) -> (r: Option<&'a str>)
    ensures
        match r {
            Some(rest) => plugin_part(source@) == Some(rest@),
            None => plugin_part(source@) is None,
        },
{
    let c = chars_of(source);
    let n: usize = c.len();
    if n >= 7 && c[0] == 'p' && c[1] == 'l' && c[2] == 'u' && c[3] == 'g' && c[4] == 'i' && c[5]
        == 'n' && c[6] == ':' {
        proof {
            assert(source@.subrange(0, 7) =~= plugin_mark());
            assert(source@.subrange(7, n as int) =~= source@.skip(7));
        }
        return Some(source.substring_char(7, n));
    }
    proof {
        if plugin_mark().is_prefix_of(source@) {
            let head = source@.subrange(0, 7);
            assert(head == plugin_mark());
            assert(head[0] == c@[0] && head[1] == c@[1] && head[2] == c@[2] && head[3] == c@[3]
                && head[4] == c@[4] && head[5] == c@[5] && head[6] == c@[6]);
        }
    }
    None
}

#[verifier::loop_isolation(false)]
fn find_plugin(plugins: &Vec<Plugin>, id: &str) -> (r: Option<usize>)
    ensures
        match r {
            Some(i) => plugin_at(plugins@, id@) == Some(i as int) && i < plugins@.len(),
            None => plugin_at(plugins@, id@) is None,
        },
{
    let ghost p = |x: Plugin| x.id@ == id@;
    let mut i: usize = 0;
    while i < plugins.len()
        invariant
            i <= plugins@.len(),
            forall|j: int| 0 <= j < i ==> (#[trigger] plugins@[j]).id@ != id@,
        decreases plugins@.len() - i,
    {
        if same_text(plugins[i].id.as_str(), id) {
            proof {
                lemma_is_first(plugins@, p, i as int);
            }
            return Some(i);
        }
        i = i + 1;
    }
    proof {
        lemma_first_where(plugins@, p);
    }
    None
}

/// The state with a view in force, or none, and its lists at the top.
pub open spec fn state_with(view: Option<AgentView>) -> AgentViewState {
    AgentViewState { current: view, agent_panel_scroll: 0, mobile_switcher_scroll: 0 }
}

/// `reply` says which view is in force.
pub open spec fn says_what_is_in_force(reply: AgentViewReply, current: Option<AgentView>) -> bool {
    match current {
        Some(view) => reply.active && reply.source == Some(view.source) && reply.label == view.label,
        None => !reply.active && reply.source is None && reply.label is None,
    }
}

impl AgentViewState {
    /// The state after the view of a source, or of any, was taken out of force.
    pub open spec fn cleared(&self, source: Option<Seq<char>>) -> AgentViewState {
        if source matches Some(s) ==> self.is_from(s) {
            state_with(None)
        } else {
            *self
        }
    }

    /// The view in force is the one that `source` put.
    pub open spec fn is_from(&self, source: Seq<char>) -> bool {
        self.current matches Some(view) && view.source@ == source
    }

    fn current_from(&self, source: &str) -> (r: bool)
        ensures
            r == self.is_from(source@),
    {
        match &self.current {
            Some(view) => same_text(view.source.as_str(), source),
            None => false,
        }
    }

    /// Put another view in force, or none. The lists start from the top again.
    fn replace_agent_view_override(&mut self, view: Option<AgentView>)
        ensures
            *final(self) == state_with(view),
    {
        self.current = view;
        self.agent_panel_scroll = 0;
        self.mobile_switcher_scroll = 0;
    }

    /// Put a view in force. `checked` is the view after its own checks, or what they found;
    /// `plugin_id` the plugin's id, where the source is a plugin's and has a valid one.
    pub fn handle_agent_view_set(
        &mut self,
        id: String,
        checked: Result<AgentView, String>,
        plugin_id: &Option<String>,
        plugins: &Vec<Plugin>,
    ) -> (r: Response<AgentViewReply>)
        ensures
            r.id == id,
            match checked {
                Err(problem) => r.refusal() == Some(refusal("invalid_agent_view"@, problem@))
                    && *final(self) == *old(self),
                Ok(view) => {
                    &&& r.refusal() == plugin_refusal(
                        view.source@,
                        opt_view(*plugin_id),
                        plugins@,
                    )
                    &&& match r.body {
                        Err(_) => *final(self) == *old(self),
                        Ok(reply) => *final(self) == state_with(Some(view))
                            && says_what_is_in_force(reply, Some(view)),
                    }
                },
            },
    {
        let view = match checked {
            Ok(view) => view,
            Err(problem) => {
                return Response {
                    id,
                    body: Err(ApiError { code: "invalid_agent_view", message: problem }),
                };
            },
        };
        if plugin_source(view.source.as_str()).is_some() {
            match plugin_id {
                None => {
                    return Response {
                        id,
                        body: Err(
                            error(
                                "invalid_agent_view",
                                "plugin-owned agent view source has an invalid plugin id",
                            ),
                        ),
                    };
                },
                Some(plugin_id) => match find_plugin(plugins, plugin_id.as_str()) {
                    None => {
                        return Response {
                            id,
                            body: Err(error("plugin_not_found", "plugin not found")),
                        };
                    },
                    Some(i) => {
                        if !plugins[i].enabled {
                            return Response {
                                id,
                                body: Err(error("plugin_disabled", "plugin is disabled")),
                            };
                        }
                    },
                },
            }
        }
        let source = view.source.clone();
        let label = clone_opt_text(&view.label);
        self.replace_agent_view_override(Some(view));
        Response { id, body: Ok(AgentViewReply { active: true, source: Some(source), label }) }
    }

    /// Take the view out of force: any, where no source is named, else only that source's. The
    /// reply says what is in force then.
    pub fn handle_agent_view_clear(&mut self, id: String, source: Option<Result<String, String>>) -> (r:
        Response<AgentViewReply>)
        ensures
            r.id == id,
            match source {
                Some(Err(problem)) => r.refusal() == Some(
                    refusal("invalid_agent_view"@, problem@),
                ) && *final(self) == *old(self),
                _ => {
                    let named = match source {
                        Some(Ok(s)) => Some(s@),
                        _ => None,
                    };
                    &&& *final(self) == old(self).cleared(named)
                    &&& r.body matches Ok(reply) && says_what_is_in_force(
                        reply,
                        final(self).current,
                    )
                },
            },
    {
        let clears = match &source {
            Some(Ok(s)) => self.current_from(s.as_str()),
            Some(Err(_)) => false,
            None => true,
        };
        match source {
            Some(Err(problem)) => {
                return Response {
                    id,
                    body: Err(ApiError { code: "invalid_agent_view", message: problem }),
                };
            },
            _ => {},
        }
        if clears {
            self.replace_agent_view_override(None);
        }
        let reply = match &self.current {
            Some(view) => AgentViewReply {
                active: true,
                source: Some(view.source.clone()),
                label: clone_opt_text(&view.label),
            },
            None => AgentViewReply { active: false, source: None, label: None },
        };
        Response { id, body: Ok(reply) }
    }

    /// Take the view of a source out of force: whether it was in force.
    pub fn clear_agent_view_for_source(&mut self, source: &str) -> (r: bool)
        ensures
            r == old(self).is_from(source@),
            *final(self) == old(self).cleared(Some(source@)),
    {
        if self.current_from(source) {
            self.replace_agent_view_override(None);
            true
        } else {
            false
        }
    }
}

} // verus!
