use bookmark_tags::cascade::{plan_cascade, remove_id, strip_tag};
use bookmark_tags::codec::encode;
use bookmark_tags::error::TagError;
use bookmark_tags::filter::filter_by_tag_text;
use bookmark_tags::ident::id_text;
use bookmark_tags::models::{Bookmark, NewBookmark, NewTag, Tag};
use bookmark_tags::session::{CascadeAction, CascadePhase, DeleteTagCascade, StoreEvent};

const A: u128 = 0x11111111_1111_4111_8111_111111111111;
const B: u128 = 0x22222222_2222_4222_8222_222222222222;
const C: u128 = 0x33333333_3333_4333_8333_333333333333;

fn bookmark(id: &str, tags: &[u128]) -> Bookmark {
    Bookmark {
        id: id.to_string(),
        url: format!("https://example.org/{}", id),
        title: id.to_string(),
        description: String::new(),
        tags: encode(&tags.to_vec()),
    }
}

fn tag(id: u128) -> Tag {
    Tag { id: id_text(id), title: format!("tag {}", id) }
}

/// A store with one transaction at a time: writes go to a working copy that
/// a commit makes durable and a rollback discards.
struct MemStore {
    bookmarks: Vec<Bookmark>,
    tags: Vec<Tag>,
    working: Option<(Vec<Bookmark>, Vec<Tag>)>,
    saves: usize,
}

/// When the store misbehaves during a run.
#[derive(Clone, Copy)]
enum Trouble {
    Nothing,
    FaultOnSave(usize),
    ConflictOnSave(usize, usize),
    FaultOnDelete,
}

impl MemStore {
    fn new(bookmarks: Vec<Bookmark>, tags: Vec<Tag>) -> MemStore {
        MemStore { bookmarks, tags, working: None, saves: 0 }
    }

    fn bookmark(&self, id: &str) -> &Bookmark {
        self.bookmarks.iter().find(|b| b.id == id).unwrap()
    }

    fn perform(&mut self, action: CascadeAction, trouble: Trouble, conflicts: &mut usize) -> StoreEvent {
        match action {
            CascadeAction::BeginTransaction => {
                self.working = Some((self.bookmarks.clone(), self.tags.clone()));
                StoreEvent::Done
            }
            CascadeAction::LoadCandidates { needle } => {
                let (bs, _) = self.working.as_ref().unwrap();
                StoreEvent::Loaded(bs.iter().filter(|b| b.tags.contains(&needle)).cloned().collect())
            }
            CascadeAction::SaveBookmark(b) => {
                let n = self.saves;
                self.saves += 1;
                match trouble {
                    Trouble::FaultOnSave(k) if k == n => return StoreEvent::Fault,
                    Trouble::ConflictOnSave(k, times) if k == n % 2 && *conflicts < times => {
                        *conflicts += 1;
                        return StoreEvent::Conflict;
                    }
                    _ => {}
                }
                let (bs, _) = self.working.as_mut().unwrap();
                let slot = bs.iter_mut().find(|x| x.id == b.id).unwrap();
                *slot = b;
                StoreEvent::Done
            }
            CascadeAction::DeleteTag { id } => {
                if let Trouble::FaultOnDelete = trouble {
                    return StoreEvent::Fault;
                }
                let (_, ts) = self.working.as_mut().unwrap();
                ts.retain(|t| t.id != id);
                StoreEvent::Done
            }
            CascadeAction::Commit => {
                let (bs, ts) = self.working.take().unwrap();
                self.bookmarks = bs;
                self.tags = ts;
                StoreEvent::Done
            }
            CascadeAction::Rollback => {
                self.working = None;
                StoreEvent::Done
            }
            CascadeAction::Finish(_) => unreachable!(),
        }
    }

    fn delete_tag(&mut self, id: u128, trouble: Trouble) -> Result<(), TagError> {
        let (mut session, mut action) = DeleteTagCascade::begin(id);
        let mut conflicts: usize = 0;
        loop {
            if let CascadeAction::Finish(outcome) = action {
                assert_eq!(session.phase, CascadePhase::Closed);
                return outcome;
            }
            let event = self.perform(action, trouble, &mut conflicts);
            action = session.advance(event);
        }
    }
}

fn three_bookmarks() -> MemStore {
    MemStore::new(
        vec![bookmark("b1", &[A, B]), bookmark("b2", &[B, C]), bookmark("b3", &[C])],
        vec![tag(A), tag(B), tag(C)],
    )
}

#[test]
fn remove_id_keeps_the_rest_in_order() {
    assert_eq!(remove_id(&vec![A, B, C, B], B), vec![A, C]);
    assert_eq!(remove_id(&vec![A, C], B), vec![A, C]);
    assert_eq!(remove_id(&vec![], B), vec![]);
}

#[test]
fn strip_tag_rewrites_only_referencing_bookmarks() {
    let b1 = bookmark("b1", &[A, B]);
    let stripped = strip_tag(&b1, B).unwrap().unwrap();
    assert_eq!(stripped.tags, id_text(A));
    assert_eq!(stripped.id, "b1");
    assert_eq!(strip_tag(&bookmark("b3", &[C]), B), Ok(None));
    let mut bad = bookmark("bad", &[]);
    bad.tags = format!("{},,{}", id_text(A), id_text(B));
    assert_eq!(strip_tag(&bad, B), Err(TagError::MalformedTagSet));
}

#[test]
fn plan_covers_exactly_the_referencing_bookmarks() {
    let candidates = vec![bookmark("b1", &[A, B]), bookmark("b2", &[B, C]), bookmark("b3", &[C])];
    let plan = plan_cascade(B, &candidates).unwrap();
    assert_eq!(plan.len(), 2);
    assert_eq!(plan[0].id, "b1");
    assert_eq!(plan[0].tags, encode(&vec![A]));
    assert_eq!(plan[1].id, "b2");
    assert_eq!(plan[1].tags, encode(&vec![C]));
    assert!(plan_cascade(A, &vec![]).unwrap().is_empty());
}

#[test]
fn plan_fails_on_malformed_candidate() {
    let mut bad = bookmark("b2", &[]);
    bad.tags = "not-an-id".to_string();
    let candidates = vec![bookmark("b1", &[A, B]), bad];
    assert_eq!(plan_cascade(B, &candidates), Err(TagError::MalformedTagSet));
}

#[test]
fn cascade_completeness() {
    let mut store = three_bookmarks();
    assert_eq!(store.delete_tag(B, Trouble::Nothing), Ok(()));
    assert_eq!(store.bookmark("b1").tags, encode(&vec![A]));
    assert_eq!(store.bookmark("b2").tags, encode(&vec![C]));
    assert_eq!(store.bookmark("b3").tags, encode(&vec![C]));
    assert!(store.tags.iter().all(|t| t.id != id_text(B)));
    assert_eq!(store.tags.len(), 2);
    assert!(store.bookmarks.iter().all(|b| !b.tags.contains(&id_text(B))));
}

#[test]
fn cascade_atomicity() {
    let mut store = three_bookmarks();
    let before = store.bookmarks.clone();
    // the second save (b2) fails
    assert_eq!(store.delete_tag(B, Trouble::FaultOnSave(1)), Err(TagError::StoreUnavailable));
    assert_eq!(store.bookmarks, before);
    assert_eq!(store.tags.len(), 3);
    assert!(store.working.is_none());
}

#[test]
fn fault_on_tag_deletion_rolls_back() {
    let mut store = three_bookmarks();
    let before = store.bookmarks.clone();
    assert_eq!(store.delete_tag(B, Trouble::FaultOnDelete), Err(TagError::StoreUnavailable));
    assert_eq!(store.bookmarks, before);
    assert_eq!(store.tags.len(), 3);
}

#[test]
fn malformed_candidate_fails_the_cascade() {
    let mut bad = bookmark("b4", &[]);
    bad.tags = format!("{},,{}", id_text(B), id_text(C));
    let mut store = three_bookmarks();
    store.bookmarks.push(bad);
    let before = store.bookmarks.clone();
    assert_eq!(store.delete_tag(B, Trouble::Nothing), Err(TagError::MalformedTagSet));
    assert_eq!(store.bookmarks, before);
    assert_eq!(store.tags.len(), 3);
}

#[test]
fn conflict_is_retried_with_fresh_reads() {
    let mut store = three_bookmarks();
    assert_eq!(store.delete_tag(B, Trouble::ConflictOnSave(1, 1)), Ok(()));
    assert_eq!(store.bookmark("b1").tags, encode(&vec![A]));
    assert_eq!(store.bookmark("b2").tags, encode(&vec![C]));
    assert_eq!(store.tags.len(), 2);
}

#[test]
fn conflict_retries_are_bounded() {
    let mut store = three_bookmarks();
    let before = store.bookmarks.clone();
    assert_eq!(
        store.delete_tag(B, Trouble::ConflictOnSave(0, 100)),
        Err(TagError::CascadeConflict)
    );
    assert_eq!(store.bookmarks, before);
    assert_eq!(store.tags.len(), 3);
}

#[test]
fn cascade_of_unreferenced_tag_deletes_only_the_tag() {
    let mut store = MemStore::new(vec![bookmark("b3", &[C])], vec![tag(A), tag(C)]);
    assert_eq!(store.delete_tag(A, Trouble::Nothing), Ok(()));
    assert_eq!(store.bookmark("b3").tags, encode(&vec![C]));
    assert_eq!(store.tags.len(), 1);
}

#[test]
fn closed_session_keeps_reporting_its_outcome() {
    let (mut session, _) = DeleteTagCascade::begin(A);
    let first = session.advance(StoreEvent::Fault);
    assert!(matches!(first, CascadeAction::Finish(Err(TagError::StoreUnavailable))));
    let again = session.advance(StoreEvent::Done);
    assert!(matches!(again, CascadeAction::Finish(Err(TagError::StoreUnavailable))));
}

#[test]
fn end_to_end_scenario() {
    let t1: u128 = 0x7a1e0001_0000_4000_8000_000000000001;
    let t2: u128 = 0x7a1e0002_0000_4000_8000_000000000002;
    let t3: u128 = 0x7a1e0003_0000_4000_8000_000000000003;
    let created = NewBookmark {
        url: "https://example.org".to_string(),
        title: "Example".to_string(),
        description: String::new(),
        tags: format!("{},{}", id_text(t1), id_text(t2)),
    }
    .into_bookmark(0x42)
    .unwrap();
    let tags: Vec<Tag> = [t1, t2, t3]
        .iter()
        .map(|t| NewTag { title: format!("t{}", t) }.into_tag(*t))
        .collect();
    let mut store = MemStore::new(vec![created.clone()], tags);

    let hit = filter_by_tag_text(&store.bookmarks, &id_text(t1)).unwrap();
    assert_eq!(hit, vec![created.clone()]);
    let both = format!("{},{}", id_text(t1), id_text(t3));
    assert!(filter_by_tag_text(&store.bookmarks, &both).unwrap().is_empty());

    assert_eq!(store.delete_tag(t1, Trouble::Nothing), Ok(()));
    let refetched = store.bookmark(&created.id);
    assert_eq!(refetched.tag_ids(), Ok(vec![t2]));
    assert_eq!(refetched.tags, id_text(t2));
}
