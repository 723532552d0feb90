//! What passes between the script task and the layout task.

use vstd::prelude::*;

use crate::dom::{NodeId, ScreenPoint};
use crate::geometry::Size2D;
use crate::url::Url;

verus! {

/// A channel to a layout task.
#[derive(Clone, Copy, Debug, PartialEq, Eq, Structural)]
pub struct LayoutChan {
    pub id: usize,
}

/// A style sheet.
#[derive(Clone, Copy, Debug, PartialEq, Eq, Structural)]
pub struct StyleSheetId {
    pub id: usize,
}

/// Progress of a page, as the compositor shows it.
#[derive(Clone, Copy, Debug, PartialEq, Eq, Structural)]
pub enum ReadyState {
    Loading,
    PerformingLayout,
    FinishedLoading,
}

/// Why a layout is requested.
#[derive(Clone, Copy, Debug, PartialEq, Eq, Structural)]
pub enum ReflowGoal {
    /// To display the result.
    ReflowForDisplay,
    /// To answer a query of a script.
    ReflowForScriptQuery,
}

/// How much of the layout has to be done again.
#[derive(Clone, Copy, Debug, PartialEq, Eq, Structural)]
pub enum DocumentDamageLevel {
    /// Selector matching and reflow.
    MatchSelectorsDocumentDamage,
    /// Reflow only.
    ReflowDocumentDamage,
}

impl DocumentDamageLevel {
    /// The amount of work that a level stands for.
    pub open spec fn rank(self) -> int {
        match self {
            DocumentDamageLevel::ReflowDocumentDamage => 0,
            DocumentDamageLevel::MatchSelectorsDocumentDamage => 1,
        }
    }

    /// The greater of two levels.
    pub open spec fn max(self, other: DocumentDamageLevel) -> DocumentDamageLevel {
        if self.rank() < other.rank() {
            other
        } else {
            self
        }
    }

    /// Raises this level to the given one, if that is greater.
    pub fn add(&mut self, new_damage: DocumentDamageLevel)
        ensures
            *final(self) == old(self).max(new_damage),
    {
        match *self {
            DocumentDamageLevel::ReflowDocumentDamage => {
                *self = new_damage;
            },
            DocumentDamageLevel::MatchSelectorsDocumentDamage => {},
        }
    }
}

/// What part of a document is damaged, and how much.
#[derive(Clone, Copy, Debug, PartialEq, Eq, Structural)]
pub struct DocumentDamage {
    /// The topmost node that is damaged.
    pub root: NodeId,
    pub level: DocumentDamageLevel,
}

/// The damage left when more is added to what there is: the root is the new one, and the level is
/// the greater one.
pub open spec fn with_damage(
    damage: Option<DocumentDamage>,
    root: NodeId,
    level: DocumentDamageLevel,
) -> DocumentDamage {
    DocumentDamage {
        root,
        level: match damage {
            Some(present) => present.level.max(level),
            None => level,
        },
    }
}

/// A request to lay a document out.
#[derive(Debug, PartialEq, Eq)]
pub struct Reflow {
    /// The root of the document.
    pub document_root: NodeId,
    /// The locator of the page.
    pub url: Url,
    pub goal: ReflowGoal,
    /// The size of the window.
    pub window_size: Size2D,
    /// What has changed since the last layout.
    pub damage: DocumentDamage,
}

/// Questions to a layout task.
#[derive(Clone, Copy, Debug, PartialEq, Eq, Structural)]
pub enum LayoutQuery {
    /// Which node of the tree is displayed at the point?
    HitTestQuery(NodeId, ScreenPoint),
}

/// Adding damage never lowers the level of what is there.
pub proof fn law_damage_never_decreases(
    damage: DocumentDamage,
    root: NodeId,
    level: DocumentDamageLevel,
)
    ensures
        with_damage(Some(damage), root, level).level.rank() >= damage.level.rank(),
        with_damage(Some(damage), root, level).level.rank() >= level.rank(),
{
}

/// Adding the same damage twice is adding it once.
pub proof fn law_damage_is_idempotent(
    damage: Option<DocumentDamage>,
    root: NodeId,
    level: DocumentDamageLevel,
)
    ensures
        with_damage(Some(with_damage(damage, root, level)), root, level) == with_damage(
            damage,
            root,
            level,
        ),
{
}

/// The order in which two damages of a document are added does not matter.
pub proof fn law_damage_order_is_irrelevant(
    damage: Option<DocumentDamage>,
    root: NodeId,
    first: DocumentDamageLevel,
    second: DocumentDamageLevel,
)
    ensures
        with_damage(Some(with_damage(damage, root, first)), root, second) == with_damage(
            Some(with_damage(damage, root, second)),
            root,
            first,
        ),
{
}

/// A level that is added to asks for selectors to be matched exactly if it did or the added one
/// does.
pub proof fn law_matching_selectors_prevails(
    level: &mut DocumentDamageLevel,
    new_damage: DocumentDamageLevel,
)
    requires
        call_ensures(DocumentDamageLevel::add, (level, new_damage), ()),
    ensures
        *final(level) is MatchSelectorsDocumentDamage <==> *old(
            level,
        ) is MatchSelectorsDocumentDamage || new_damage is MatchSelectorsDocumentDamage,
{
}

} // verus!
