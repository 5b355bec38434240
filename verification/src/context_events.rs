//! `mc model context-events`: argument parsing for listing, adding and
//! removing context events.
use crate::coord_map::{sorted_insert, CoordMap};
use crate::text::{
    chars_of, err_debug, find_char, find_char_exec, has_prefix, lemma_find_char_found, lit,
    slice_chars, split_chars, split_on, starts_with_dashes, str_debug, str_eq, string_of, trim,
    trim_chars,
};
use vstd::prelude::*;

verus! {

/// A fully-parsed `mc model context-events` invocation.
#[derive(Debug)]
pub struct ContextEventsCommand {
    pub path: String,
    pub action: Action,
}

/// What to do with the context events.
#[derive(Debug)]
pub enum Action {
    List,
    Add { period: String, event_type: String, description: String, scope: CoordMap },
    Remove { id: String },
}

/// The value an [`Action`] stands for.
pub enum ActionModel {
    List,
    Add {
        period: Seq<char>,
        event_type: Seq<char>,
        description: Seq<char>,
        scope: Seq<(Seq<char>, Seq<char>)>,
    },
    Remove { id: Seq<char> },
}

/// The value a [`ContextEventsCommand`] stands for.
pub struct EventsModel {
    pub path: Seq<char>,
    pub action: ActionModel,
}

impl ContextEventsCommand {
    pub open spec fn model(&self) -> EventsModel {
        EventsModel {
            path: self.path@,
            action: match self.action {
                Action::List => ActionModel::List,
                Action::Add { period, event_type, description, scope } => ActionModel::Add {
                    period: period@,
                    event_type: event_type@,
                    description: description@,
                    scope: scope@,
                },
                Action::Remove { id } => ActionModel::Remove { id: id@ },
            },
        }
    }
}

/// The scope after reading `Key=Value` pieces in order: each piece with
/// an `=` sets its trimmed key to its trimmed value; others are skipped.
pub open spec fn scope_pairs(m: Seq<(Seq<char>, Seq<char>)>, pieces: Seq<Seq<char>>) -> Seq<
    (Seq<char>, Seq<char>),
>
    decreases pieces.len(),
{
    if pieces.len() == 0 {
        m
    } else {
        let before = scope_pairs(m, pieces.drop_last());
        let p = pieces.last();
        match find_char(p, '=') {
            Some(k) => sorted_insert(
                before,
                trim(p.subrange(0, k)),
                trim(p.subrange(k + 1, p.len() as int)),
            ),
            None => before,
        }
    }
}

/// Read the comma-separated `Key=Value` pairs of a `--scope` argument.
fn add_scope_pairs(scope: &mut CoordMap, v: &str)
    ensures
        final(scope)@ == scope_pairs(old(scope)@, split_on(v@, ',')),
{
    let cs = chars_of(v);
    let pieces = split_chars(&cs, ',');
    let ghost ps = split_on(v@, ',');
    let ghost start = scope@;
    let mut j: usize = 0;
    assert(ps.take(0) =~= Seq::<Seq<char>>::empty());
    while j < pieces.len()
        invariant
            j <= pieces@.len(),
            pieces@.len() == ps.len(),
            ps == split_on(v@, ','),
            cs@ == v@,
            forall|k: int| 0 <= k < pieces@.len() ==> (#[trigger] pieces@[k])@ == ps[k],
            scope@ == scope_pairs(start, ps.take(j as int)),
        decreases pieces@.len() - j,
    {
        let p = &pieces[j];
        assert(p@ == ps[j as int]);
        assert(ps.take(j as int + 1).drop_last() =~= ps.take(j as int));
        proof {
            lemma_find_char_found(p@, '=');
        }
        match find_char_exec(p, '=') {
            Some(k) => {
                assert(find_char(p@, '=') == Some(k as int));
                let n = p.len();
                assert(k < n);
                let key = string_of(&trim_chars(&slice_chars(p, 0, k)));
                let val = string_of(&trim_chars(&slice_chars(p, k + 1, n)));
                scope.insert(key, val);
            },
            None => {},
        }
        j += 1;
    }
    assert(ps.take(ps.len() as int) =~= ps);
}

/// What the argument loop has gathered so far.
pub struct EventsState {
    pub path: Option<Seq<char>>,
    pub remove_id: Option<Seq<char>>,
    pub period: Option<Seq<char>>,
    pub event_type: Option<Seq<char>>,
    pub description: Option<Seq<char>>,
    pub scope: Seq<(Seq<char>, Seq<char>)>,
}

/// The argument loop from position `i` on.
pub open spec fn events_loop(args: Seq<Seq<char>>, i: nat, st: EventsState) -> Result<EventsState, Seq<char>>
    decreases args.len() - i,
{
    if i >= args.len() {
        Ok(st)
    } else {
        let a = args[i as int];
        let has_v = i + 1 < args.len();
        let v = args[i + 1 as int];
        if a == "--list"@ || a == "--add"@ {
            events_loop(args, i + 1, st)
        } else if a == "--remove"@ {
            if !has_v {
                Err("--remove requires an event ID"@)
            } else {
                events_loop(args, i + 2, EventsState { remove_id: Some(v), ..st })
            }
        } else if a == "--period"@ {
            if !has_v {
                Err("--period requires a value"@)
            } else {
                events_loop(args, i + 2, EventsState { period: Some(v), ..st })
            }
        } else if a == "--type"@ {
            if !has_v {
                Err("--type requires a value"@)
            } else {
                events_loop(args, i + 2, EventsState { event_type: Some(v), ..st })
            }
        } else if a == "--description"@ {
            if !has_v {
                Err("--description requires a value"@)
            } else {
                events_loop(args, i + 2, EventsState { description: Some(v), ..st })
            }
        } else if a == "--scope"@ {
            if !has_v {
                Err("--scope requires a value like 'Channel=Display'"@)
            } else {
                events_loop(args, i + 2, EventsState { scope: scope_pairs(st.scope, split_on(v, ',')), ..st })
            }
        } else if !has_prefix(a, seq!['-', '-']) && st.path is None {
            events_loop(args, i + 1, EventsState { path: Some(a), ..st })
        } else {
            Err("unknown argument: "@ + str_debug(a))
        }
    }
}

/// The checks made once every argument is read, and the action chosen:
/// `--remove` wins, then `--period` (an add, which needs `--type` and
/// `--description`), else listing.
pub open spec fn events_finish(r: Result<EventsState, Seq<char>>) -> Result<EventsModel, Seq<char>> {
    match r {
        Err(e) => Err(e),
        Ok(st) => if st.path is None {
            Err("`mc model context-events` requires a model directory path"@)
        } else {
            match st.remove_id {
                Some(id) => Ok(EventsModel { path: st.path->0, action: ActionModel::Remove { id } }),
                None => match st.period {
                    Some(p) => if st.event_type is None {
                        Err("--add requires --type"@)
                    } else if st.description is None {
                        Err("--add requires --description"@)
                    } else {
                        Ok(
                            EventsModel {
                                path: st.path->0,
                                action: ActionModel::Add {
                                    period: p,
                                    event_type: st.event_type->0,
                                    description: st.description->0,
                                    scope: st.scope,
                                },
                            },
                        )
                    },
                    None => Ok(EventsModel { path: st.path->0, action: ActionModel::List }),
                },
            }
        },
    }
}

/// The state before any argument is read.
pub open spec fn events_init() -> EventsState {
    EventsState {
        path: None,
        remove_id: None,
        period: None,
        event_type: None,
        description: None,
        scope: Seq::empty(),
    }
}

/// The outcome of parsing `context-events` arguments.
pub open spec fn events_spec(args: Seq<Seq<char>>) -> Result<EventsModel, Seq<char>> {
    if args.len() == 0 {
        Err("`mc model context-events` requires a model directory path"@)
    } else {
        events_finish(events_loop(args, 0, events_init()))
    }
}

/// Parse `mc model context-events` arguments.
pub fn parse(args: &[String]) -> (r: Result<ContextEventsCommand, String>)
    ensures
        match r {
            Ok(c) => events_spec(args.deep_view()) == Ok::<EventsModel, Seq<char>>(c.model()),
            Err(e) => events_spec(args.deep_view()) == Err::<EventsModel, Seq<char>>(e@),
        },
{
    let ghost av = args.deep_view();
    if args.len() == 0 {
        return Err(lit("`mc model context-events` requires a model directory path"));
    }
    let mut path: Option<String> = None;
    let mut remove_id: Option<String> = None;
    let mut period: Option<String> = None;
    let mut event_type: Option<String> = None;
    let mut description: Option<String> = None;
    let mut scope: CoordMap = CoordMap::new();
    let mut i: usize = 0;
    while i < args.len()
        invariant
            i <= args@.len(),
            av == args.deep_view(),
            events_spec(av) == events_finish(events_loop(av, i as nat, EventsState {
                path: path.deep_view(),
                remove_id: remove_id.deep_view(),
                period: period.deep_view(),
                event_type: event_type.deep_view(),
                description: description.deep_view(),
                scope: scope@,
            })),
        decreases args@.len() - i,
    {
        let arg = args[i].as_str();
        assert(av[i as int] == arg@);
        let has_v = i + 1 < args.len();
        if has_v {
            assert(av[i + 1] == args@[i + 1]@);
        }
        if str_eq(arg, "--list") || str_eq(arg, "--add") {
            i += 1;
        } else if str_eq(arg, "--remove") {
            if !has_v {
                return Err(lit("--remove requires an event ID"));
            }
            remove_id = Some(args[i + 1].clone());
            i += 2;
        } else if str_eq(arg, "--period") {
            if !has_v {
                return Err(lit("--period requires a value"));
            }
            period = Some(args[i + 1].clone());
            i += 2;
        } else if str_eq(arg, "--type") {
            if !has_v {
                return Err(lit("--type requires a value"));
            }
            event_type = Some(args[i + 1].clone());
            i += 2;
        } else if str_eq(arg, "--description") {
            if !has_v {
                return Err(lit("--description requires a value"));
            }
            description = Some(args[i + 1].clone());
            i += 2;
        } else if str_eq(arg, "--scope") {
            if !has_v {
                return Err(lit("--scope requires a value like 'Channel=Display'"));
            }
            add_scope_pairs(&mut scope, args[i + 1].as_str());
            i += 2;
        } else if !starts_with_dashes(arg) && path.is_none() {
            path = Some(args[i].clone());
            i += 1;
        } else {
            return Err(err_debug("unknown argument: ", arg));
        }
    }
    let path = match path {
        None => {
            return Err(lit("`mc model context-events` requires a model directory path"));
        },
        Some(p) => p,
    };
    let action = match remove_id {
        Some(id) => Action::Remove { id },
        None => match period {
            Some(p) => {
                let et = match event_type {
                    None => {
                        return Err(lit("--add requires --type"));
                    },
                    Some(t) => t,
                };
                let desc = match description {
                    None => {
                        return Err(lit("--add requires --description"));
                    },
                    Some(d) => d,
                };
                Action::Add { period: p, event_type: et, description: desc, scope }
            },
            None => Action::List,
        },
    };
    Ok(ContextEventsCommand { path, action })
}

proof fn lemma_events_loop_keeps(args: Seq<Seq<char>>, i: nat, st: EventsState)
    ensures
        events_loop(args, i, st) matches Ok(s2) ==> {
            &&& ((forall|j: int| i <= j < args.len() ==> args[j] != "--remove"@) ==> s2.remove_id == st.remove_id)
            &&& ((forall|j: int| i <= j < args.len() ==> args[j] != "--period"@) ==> s2.period == st.period)
            &&& (s2.remove_id matches Some(id) ==> (st.remove_id == Some(id) || exists|j: int|
                i <= j && j + 1 < args.len() && #[trigger] args[j] == "--remove"@ && args[j + 1] == id))
        },
    decreases args.len() - i,
{
    if i < args.len() {
        let a = args[i as int];
        let has_v = i + 1 < args.len();
        let v = args[i + 1 as int];
        if a == "--list"@ || a == "--add"@ {
            lemma_events_loop_keeps(args, i + 1, st);
        } else if a == "--remove"@ {
            if has_v {
                lemma_events_loop_keeps(args, i + 2, EventsState { remove_id: Some(v), ..st });
            }
        } else if a == "--period"@ {
            if has_v {
                lemma_events_loop_keeps(args, i + 2, EventsState { period: Some(v), ..st });
            }
        } else if a == "--type"@ {
            if has_v {
                lemma_events_loop_keeps(args, i + 2, EventsState { event_type: Some(v), ..st });
            }
        } else if a == "--description"@ {
            if has_v {
                lemma_events_loop_keeps(args, i + 2, EventsState { description: Some(v), ..st });
            }
        } else if a == "--scope"@ {
            if has_v {
                lemma_events_loop_keeps(
                    args,
                    i + 2,
                    EventsState { scope: scope_pairs(st.scope, split_on(v, ',')), ..st },
                );
            }
        } else if !has_prefix(a, seq!['-', '-']) && st.path is None {
            lemma_events_loop_keeps(args, i + 1, EventsState { path: Some(a), ..st });
        }
    }
}

/// `context-events` lists unless asked otherwise: with neither
/// `--remove` nor `--period` a parsed command is a listing; an add with
/// no `--type` is refused. A removal removes an id given after
/// `--remove`; without `--remove`, a period makes the command an add of
/// that period.
pub proof fn law_context_events_arguments(args: Seq<Seq<char>>)
    ensures
        events_spec(args) matches Ok(c) ==> (c.action matches ActionModel::Remove { id } ==> exists|j: int|
            0 <= j && j + 1 < args.len() && #[trigger] args[j] == "--remove"@ && args[j + 1] == id),
        events_loop(args, 0, events_init()) matches Ok(st) ==> (events_spec(args) matches Ok(c) ==> ((!args.contains(
            "--remove"@) && st.period is Some) ==> c.action == (ActionModel::Add {
            period: st.period->0,
            event_type: st.event_type->0,
            description: st.description->0,
            scope: st.scope,
        }))),
        (!args.contains("--remove"@) && !args.contains("--period"@)) ==> (events_spec(args) matches Ok(c)
            ==> c.action is List),
        events_loop(args, 0, events_init()) matches Ok(st) ==> ((st.path is Some && st.remove_id is None
            && st.period is Some && st.event_type is None) ==> events_spec(args) == Err::<
            EventsModel,
            Seq<char>,
        >("--add requires --type"@)),
{
    lemma_events_loop_keeps(args, 0, events_init());
    if !args.contains("--remove"@) {
        assert forall|j: int| 0 <= j < args.len() implies args[j] != "--remove"@ by {
            if args[j] == "--remove"@ {
                assert(args.contains("--remove"@));
            }
        }
    }
    if !args.contains("--period"@) {
        assert forall|j: int| 0 <= j < args.len() implies args[j] != "--period"@ by {
            if args[j] == "--period"@ {
                assert(args.contains("--period"@));
            }
        }
    }
}

} // verus!
