//! Opening the store: open it with its default namespace and create the
//! configured ones, or, where that open or a creation fails (a store that
//! already has namespaces), open it with all configured namespaces at once,
//! creating those missing. Opening fails only when that open fails too.

use vstd::prelude::*;

verus! {

/// Why the store could not be opened, with the store's message.
#[derive(Clone, Debug, PartialEq, Eq)]
pub struct StorageOpenError {
    pub message: String,
}

/// Where opening stands.
#[derive(Clone, Copy, Debug, PartialEq, Eq, Structural)]
pub enum OpenStage {
    Start,
    OpeningDefault,
    /// Creating the namespace at this position of the configured list.
    Creating(usize),
    OpeningWithNamespaces,
    Ready,
    Failed,
}

/// What the store reported about the last action.
#[derive(Clone, Debug)]
pub enum OpenEvent {
    Begin,
    Succeeded,
    Failed(String),
}

/// What to ask of the store next.
#[derive(Clone, Debug)]
pub enum OpenAction {
    /// Open the store with its default namespace only, creating it if missing.
    OpenDefault,
    /// Create this namespace in the store just opened.
    CreateNamespace(String),
    /// Open the store with all these namespaces, creating missing ones.
    OpenWithNamespaces(Vec<String>),
    /// The store is open with every configured namespace.
    Ready,
    /// Opening failed.
    Fail(StorageOpenError),
}

/// An action with its text as characters.
pub enum OpenActionView {
    OpenDefault,
    CreateNamespace(Seq<char>),
    OpenWithNamespaces(Seq<Seq<char>>),
    Ready,
    Fail(Seq<char>),
}

impl View for OpenAction {
    type V = OpenActionView;

    open spec fn view(&self) -> OpenActionView {
        match self {
            OpenAction::OpenDefault => OpenActionView::OpenDefault,
            OpenAction::CreateNamespace(n) => OpenActionView::CreateNamespace(n@),
            OpenAction::OpenWithNamespaces(ns) => OpenActionView::OpenWithNamespaces(ns.deep_view()),
            OpenAction::Ready => OpenActionView::Ready,
            OpenAction::Fail(e) => OpenActionView::Fail(e.message@),
        }
    }
}

/// The next stage and action of opening a store with `namespaces`, from
/// `stage` after `event`; None where the event does not belong to the stage.
pub open spec fn open_step(namespaces: Seq<Seq<char>>, stage: OpenStage, event: OpenEvent) -> (
    OpenStage,
    Option<OpenActionView>,
) {
    match (stage, event) {
        (OpenStage::Start, OpenEvent::Begin) => (OpenStage::OpeningDefault, Some(OpenActionView::OpenDefault)),
        (OpenStage::OpeningDefault, OpenEvent::Succeeded) => if namespaces.len() == 0 {
            (OpenStage::Ready, Some(OpenActionView::Ready))
        } else {
            (OpenStage::Creating(0), Some(OpenActionView::CreateNamespace(namespaces[0])))
        },
        (OpenStage::OpeningDefault, OpenEvent::Failed(_)) => (
            OpenStage::OpeningWithNamespaces,
            Some(OpenActionView::OpenWithNamespaces(namespaces)),
        ),
        (OpenStage::Creating(i), OpenEvent::Succeeded) => if i + 1 < namespaces.len() {
            (
                OpenStage::Creating((i + 1) as usize),
                Some(OpenActionView::CreateNamespace(namespaces[i + 1])),
            )
        } else {
            (OpenStage::Ready, Some(OpenActionView::Ready))
        },
        (OpenStage::Creating(_), OpenEvent::Failed(_)) => (
            OpenStage::OpeningWithNamespaces,
            Some(OpenActionView::OpenWithNamespaces(namespaces)),
        ),
        (OpenStage::OpeningWithNamespaces, OpenEvent::Succeeded) => (OpenStage::Ready, Some(OpenActionView::Ready)),
        (OpenStage::OpeningWithNamespaces, OpenEvent::Failed(m)) => (
            OpenStage::Failed,
            Some(OpenActionView::Fail(m@)),
        ),
        _ => (stage, None),
    }
}

proof fn lemma_push_to_set(s: Seq<Seq<char>>, x: Seq<char>)
    ensures
        s.push(x).to_set() == s.to_set().insert(x),
{
    assert forall|y: Seq<char>| s.push(x).to_set().contains(y) <==> s.to_set().insert(x).contains(y) by {
        if s.to_set().insert(x).contains(y) && y != x {
            let k = choose|k: int| 0 <= k < s.len() && s[k] == y;
            assert(s.push(x)[k] == y);
        }
        if s.push(x).to_set().contains(y) && y != x {
            let k = choose|k: int| 0 <= k < s.push(x).len() && s.push(x)[k] == y;
            assert(s[k] == y);
        }
        if y == x {
            assert(s.push(x)[s.len() as int] == x);
        }
    }
    assert(s.push(x).to_set() =~= s.to_set().insert(x));
}

/// Opening a store with a list of namespaces; `present` is the set of
/// namespaces the store has confirmed it holds.
pub struct StoreOpening {
    pub namespaces: Vec<String>,
    pub stage: OpenStage,
    pub present: Ghost<Set<Seq<char>>>,
}

impl StoreOpening {
    /// The namespaces confirmed so far match the stage: none before the store
    /// is open, the first `i` while creating the one at `i`, and all of them
    /// once it is ready.
    pub open spec fn wf(&self) -> bool {
        let ns = self.namespaces.deep_view();
        match self.stage {
            OpenStage::Creating(i) => i < ns.len() && self.present@ == ns.subrange(0, i as int).to_set(),
            OpenStage::Ready => self.present@ == ns.to_set(),
            OpenStage::Failed => true,
            _ => self.present@ == Set::<Seq<char>>::empty(),
        }
    }

    /// An opening that has not begun.
    pub fn new(namespaces: Vec<String>) -> (r: StoreOpening)
        ensures
            r.namespaces == namespaces,
            r.stage == OpenStage::Start,
            r.wf(),
    {
        StoreOpening { namespaces, stage: OpenStage::Start, present: Ghost(Set::empty()) }
    }

    /// Moves on after `event` and returns what to ask of the store next.
    /// Whichever way the store was opened, once it is ready it holds every
    /// configured namespace.
    pub fn step(&mut self, event: OpenEvent) -> (r: Option<OpenAction>)
        requires
            old(self).wf(),
        ensures
            final(self).wf(),
            final(self).namespaces == old(self).namespaces,
            final(self).stage == OpenStage::Ready ==> final(self).present@
                == final(self).namespaces.deep_view().to_set(),
            (final(self).stage, match r {
                Some(a) => Some(a@),
                None => None,
            }) == open_step(old(self).namespaces.deep_view(), old(self).stage, event),
    {
        let n = self.namespaces.len();
        let ghost succeeded = event is Succeeded;
        let (stage, action) = match (self.stage, event) {
            (OpenStage::Start, OpenEvent::Begin) => (OpenStage::OpeningDefault, Some(OpenAction::OpenDefault)),
            (OpenStage::OpeningDefault, OpenEvent::Succeeded) => if self.namespaces.len() == 0 {
                (OpenStage::Ready, Some(OpenAction::Ready))
            } else {
                (OpenStage::Creating(0), Some(OpenAction::CreateNamespace(self.namespaces[0].clone())))
            },
            (OpenStage::OpeningDefault, OpenEvent::Failed(_)) => (
                OpenStage::OpeningWithNamespaces,
                Some(OpenAction::OpenWithNamespaces(self.namespaces.clone())),
            ),
            (OpenStage::Creating(i), OpenEvent::Succeeded) => if i < n && n - i > 1 {
                (
                    OpenStage::Creating(i + 1),
                    Some(OpenAction::CreateNamespace(self.namespaces[i + 1].clone())),
                )
            } else {
                (OpenStage::Ready, Some(OpenAction::Ready))
            },
            (OpenStage::Creating(_), OpenEvent::Failed(_)) => (
                OpenStage::OpeningWithNamespaces,
                Some(OpenAction::OpenWithNamespaces(self.namespaces.clone())),
            ),
            (OpenStage::OpeningWithNamespaces, OpenEvent::Succeeded) => (OpenStage::Ready, Some(OpenAction::Ready)),
            (OpenStage::OpeningWithNamespaces, OpenEvent::Failed(m)) => (
                OpenStage::Failed,
                Some(OpenAction::Fail(StorageOpenError { message: m })),
            ),
            (stage, _) => (stage, None),
        };
        proof {
            let ns = self.namespaces.deep_view();
            let ghost_present = if !succeeded {
                if stage == OpenStage::OpeningWithNamespaces {
                    Set::<Seq<char>>::empty()
                } else {
                    self.present@
                }
            } else {
                match self.stage {
                    OpenStage::Creating(i) => self.present@.insert(ns[i as int]),
                    OpenStage::OpeningDefault | OpenStage::OpeningWithNamespaces => if stage
                        == OpenStage::Ready {
                        ns.to_set()
                    } else {
                        self.present@
                    },
                    _ => self.present@,
                }
            };
            if let OpenStage::Creating(i) = self.stage {
                assert(ns.subrange(0, i + 1) =~= ns.subrange(0, i as int).push(ns[i as int]));
                lemma_push_to_set(ns.subrange(0, i as int), ns[i as int]);
                if i + 1 == ns.len() {
                    assert(ns.subrange(0, i + 1) =~= ns);
                }
            }
            if ns.len() == 0 {
                assert(ns.to_set() =~= Set::<Seq<char>>::empty());
            }
            assert(ns.subrange(0, 0).to_set() =~= Set::<Seq<char>>::empty());
            self.present = Ghost(ghost_present);
        }
        self.stage = stage;
        action
    }
}

} // verus!
