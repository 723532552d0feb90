use servo::dom::NodeId;
use servo::layout::{DocumentDamage, DocumentDamageLevel};
use servo::script_task::ScriptTask;

const MATCH: DocumentDamageLevel = DocumentDamageLevel::MatchSelectorsDocumentDamage;
const REFLOW: DocumentDamageLevel = DocumentDamageLevel::ReflowDocumentDamage;

fn added(levels: &[DocumentDamageLevel]) -> Option<DocumentDamage> {
    let mut damage = None;
    for (i, level) in levels.iter().enumerate() {
        ScriptTask::damage(&mut damage, NodeId { id: i }, *level);
    }
    damage
}

#[test]
fn levels_only_rise() {
    for (first, second, sum) in
        [(MATCH, MATCH, MATCH), (MATCH, REFLOW, MATCH), (REFLOW, MATCH, MATCH), (REFLOW, REFLOW, REFLOW)]
    {
        let mut level = first;
        level.add(second);
        assert_eq!(level, sum);
    }
}

#[test]
fn first_damage_is_taken_as_it_is() {
    assert_eq!(added(&[]), None);
    assert_eq!(added(&[REFLOW]), Some(DocumentDamage { root: NodeId { id: 0 }, level: REFLOW }));
}

#[test]
fn more_damage_moves_the_root_and_raises_the_level() {
    assert_eq!(
        added(&[REFLOW, MATCH, REFLOW]),
        Some(DocumentDamage { root: NodeId { id: 2 }, level: MATCH })
    );
    assert_eq!(
        added(&[REFLOW, REFLOW]),
        Some(DocumentDamage { root: NodeId { id: 1 }, level: REFLOW })
    );
}

#[test]
fn the_order_of_damage_does_not_matter() {
    assert_eq!(added(&[REFLOW, MATCH]), added(&[MATCH, REFLOW]));
    assert_eq!(added(&[REFLOW, MATCH]), added(&[MATCH, MATCH]));
}
