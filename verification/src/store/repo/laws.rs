//! What holds of projects, whatever the tables hold.
use vstd::prelude::*;

use crate::model::EntityType;
use crate::seqs::lemma_filter_members;
use crate::store::repo::project::{
    any_deleted, archive_plan, entity_plan, entity_steps, identity_for, synced_id, written,
    CreationView, DeletionView, IdentityView, Planned, ProjectFileView, ProjectView, Table,
};
use crate::store::repo::tables::{
    each_once, newest_first, Answer, Change, ChildRow, Digest, Entity, ListedProject, ProjectRow,
    Query, Session, Tables, TransactionStep, WorkspaceRow,
};
use crate::text::text_less;
use crate::time::TimestampView;

verus! {

/// The store with the files beside it: the tables, which entities have files
/// that are marked as deleted, and whether that of the project is.
#[verifier::ext_equal]
pub struct World {
    pub tables: Tables,
    pub tombstones: Set<Entity>,
    pub project_tombstone: bool,
}

/// The tables after an entity was deleted with all that hangs on it. What is
/// recorded of it are events of the given transaction.
pub open spec fn cascaded(
    tables: Tables,
    transaction_id: Seq<char>,
    entity: Entity,
    events: Set<Seq<char>>,
) -> Tables {
    Tables {
        entities: tables.entities.remove(entity),
        children: tables.children.filter(|child: ChildRow| !child.ends.contains(entity)),
        events: Map::new(
            |id: Seq<char>| tables.events.contains_key(id) || events.contains(id),
            |id: Seq<char>|
                if tables.events.contains_key(id) {
                    tables.events[id]
                } else {
                    transaction_id
                },
        ),
        ..tables
    }
}

impl World {
    /// The store after a step of a deletion, given the events that deleting
    /// an entity records.
    pub open spec fn step(self, planned: Planned, events: spec_fn(Entity) -> Set<Seq<char>>) -> World {
        match planned {
            Planned::Execute(change) => World { tables: change.applied(self.tables), ..self },
            Planned::Cascade { transaction_id, entity } => World {
                tables: cascaded(self.tables, transaction_id, entity, events(entity)),
                ..self
            },
            Planned::Tombstone(entity) => World {
                tombstones: self.tombstones.insert(entity),
                ..self
            },
            Planned::TombstoneProject => World { project_tombstone: true, ..self },
        }
    }

    /// The store after the steps of a deletion, in order.
    pub open spec fn run(self, plan: Seq<Planned>, events: spec_fn(Entity) -> Set<Seq<char>>) -> World
        decreases plan.len(),
    {
        if plan.len() == 0 {
            self
        } else {
            self.run(plan.drop_last(), events).step(plan.last(), events)
        }
    }
}

/// Steps one behind the other.
proof fn lemma_run_both(
    world: World,
    a: Seq<Planned>,
    b: Seq<Planned>,
    events: spec_fn(Entity) -> Set<Seq<char>>,
)
    ensures
        world.run(a + b, events) == world.run(a, events).run(b, events),
    decreases b.len(),
{
    if b.len() == 0 {
        assert(a + b =~= a);
    } else {
        lemma_run_both(world, a, b.drop_last(), events);
        assert((a + b).drop_last() =~= a + b.drop_last());
        assert((a + b).last() == b.last());
    }
}

/// What the deletion of some entities of a project leaves.
pub open spec fn swept(before: World, after: World, entities: Set<Entity>, deletion: DeletionView) -> bool {
    let (old, new) = (before.tables, after.tables);
    &&& new.projects == old.projects
    &&& new.workspaces == old.workspaces
    &&& new.transactions == old.transactions
    &&& forall|entity: Entity| #[trigger]
        new.entities.contains_key(entity) <==> old.entities.contains_key(entity)
            && !entities.contains(entity)
    &&& forall|entity: Entity| #[trigger]
        new.entities.contains_key(entity) ==> new.entities[entity] == old.entities[entity]
    &&& forall|child: ChildRow| #[trigger]
        new.children.contains(child) <==> old.children.contains(child) && child.ends.disjoint(
            entities,
        )
    &&& forall|id: Seq<char>| #[trigger]
        old.events.contains_key(id) ==> new.events.contains_key(id) && new.events[id]
            == old.events[id]
    &&& forall|id: Seq<char>| #[trigger]
        new.events.contains_key(id) && !old.events.contains_key(id) ==> new.events[id]
            == deletion.transaction_id
    &&& forall|digest: Digest| #[trigger]
        new.digests.contains(digest) ==> old.digests.contains(digest)
    &&& forall|digest: Digest| #[trigger]
        old.digests.contains(digest) && digest.project_id != deletion.project_id
            ==> new.digests.contains(digest)
    &&& after.tombstones == before.tombstones.union(entities)
    &&& after.project_tombstone == before.project_tombstone
}

/// Deleting some entities and then others.
proof fn lemma_swept_both(
    w0: World,
    w1: World,
    w2: World,
    a: Set<Entity>,
    b: Set<Entity>,
    deletion: DeletionView,
)
    requires
        swept(w0, w1, a, deletion),
        swept(w1, w2, b, deletion),
    ensures
        swept(w0, w2, a.union(b), deletion),
{
    assert forall|child: ChildRow| #[trigger]
        w2.tables.children.contains(child) <==> w0.tables.children.contains(child)
            && child.ends.disjoint(a.union(b)) by {
        assert(w1.tables.children.contains(child) <==> w0.tables.children.contains(child)
            && child.ends.disjoint(a));
        if child.ends.disjoint(a.union(b)) {
            assert forall|e: Entity| child.ends.contains(e) implies !a.contains(e) && !b.contains(
                e,
            ) by {
                assert(!a.union(b).contains(e));
            }
            assert(child.ends.disjoint(a));
            assert(child.ends.disjoint(b));
        }
    }
    assert forall|id: Seq<char>| #[trigger]
        w2.tables.events.contains_key(id) && !w0.tables.events.contains_key(id) implies
        w2.tables.events[id] == deletion.transaction_id by {
        if w1.tables.events.contains_key(id) {
        }
    }
    assert(w2.tombstones =~= w0.tombstones.union(a.union(b)));
}

/// The entities of one kind with the given ids.
pub open spec fn entities_of(kind: EntityType, ids: Seq<Seq<char>>) -> Set<Entity> {
    Set::new(|entity: Entity| entity.kind == kind && ids.contains(entity.id))
}

/// What the steps for the entities of one kind leave.
proof fn lemma_entity_steps(
    world: World,
    deletion: DeletionView,
    kind: EntityType,
    ids: Seq<Seq<char>>,
    events: spec_fn(Entity) -> Set<Seq<char>>,
)
    ensures
        swept(
            world,
            world.run(entity_steps(deletion, kind, ids), events),
            entities_of(kind, ids),
            deletion,
        ),
    decreases ids.len(),
{
    if ids.len() == 0 {
        assert(entities_of(kind, ids) =~= Set::empty());
        assert(world.tombstones.union(Set::empty()) =~= world.tombstones);
    } else {
        let rest = ids.drop_last();
        lemma_entity_steps(world, deletion, kind, rest, events);
        let entity = Entity { kind, id: ids.last() };
        let before = entity_steps(deletion, kind, rest);
        let more = deletion.steps_for(entity);
        let w1 = world.run(before, events);
        lemma_run_both(world, before, more, events);
        reveal_with_fuel(World::run, 4);
        assert(more.drop_last().drop_last().drop_last() =~= Seq::empty());
        let w2 = w1.step(more[0], events).step(more[1], events).step(more[2], events);
        assert(w1.run(more, events) == w2);
        let one = Set::empty().insert(entity);
        assert forall|child: ChildRow| #[trigger]
            w2.tables.children.contains(child) <==> w1.tables.children.contains(child)
                && child.ends.disjoint(one) by {
            if !child.ends.contains(entity) {
                assert(child.ends.disjoint(one));
            } else {
                assert(!child.ends.disjoint(one)) by {
                    assert(one.contains(entity));
                }
            }
        }
        assert(w2.tombstones =~= w1.tombstones.union(one));
        assert(swept(w1, w2, one, deletion));
        lemma_swept_both(world, w1, w2, entities_of(kind, rest), one, deletion);
        assert forall|e: Entity| entities_of(kind, ids).contains(e) == entities_of(
            kind,
            rest,
        ).union(one).contains(e) by {
            if e.kind == kind && ids.contains(e.id) {
                let k = choose|k: int| 0 <= k < ids.len() && ids[k] == e.id;
                if k < rest.len() {
                    assert(rest[k] == e.id);
                } else {
                    assert(e == entity);
                }
            }
            if e.kind == kind && rest.contains(e.id) {
                let k = choose|k: int| 0 <= k < rest.len() && rest[k] == e.id;
                assert(ids[k] == e.id);
            }
            if e == entity {
                assert(ids[ids.len() - 1] == e.id);
            }
        }
        assert(entities_of(kind, ids) =~= entities_of(kind, rest).union(one));
    }
}

impl Tables {
    /// The tables without a project and all that belongs to it. What hangs
    /// on one of its entities goes, even where it hangs on another too.
    pub open spec fn without(self, id: Seq<char>) -> Tables {
        Tables {
            projects: self.projects.remove(id),
            workspaces: Map::new(
                |w: Seq<char>| self.workspaces.contains_key(w) && self.workspaces[w].project_id != id,
                |w: Seq<char>| self.workspaces[w],
            ),
            entities: Map::new(
                |e: Entity| self.entities.contains_key(e) && self.entities[e] != id,
                |e: Entity| self.entities[e],
            ),
            children: self.children.filter(
                |child: ChildRow| forall|e: Entity| child.ends.contains(e) ==> !self.owns(id, e),
            ),
            transactions: Map::new(
                |t: Seq<char>| self.transactions.contains_key(t) && self.transactions[t] != id,
                |t: Seq<char>| self.transactions[t],
            ),
            events: Map::new(
                |e: Seq<char>|
                    self.events.contains_key(e) && self.transactions[self.events[e]] != id,
                |e: Seq<char>| self.events[e],
            ),
            digests: self.digests.filter(|digest: Digest| digest.project_id != id),
        }
    }

    /// Whether every event is one of a transaction that is there.
    pub open spec fn events_have_transactions(self) -> bool {
        forall|e: Seq<char>| #[trigger]
            self.events.contains_key(e) ==> self.transactions.contains_key(self.events[e])
    }
}

/// The entities that a deletion is to delete.
pub open spec fn doomed(deletion: DeletionView) -> Set<Entity> {
    entities_of(EntityType::Task, deletion.tasks).union(
        entities_of(EntityType::Iteration, deletion.iterations),
    ).union(entities_of(EntityType::Artifact, deletion.artifacts))
}

/// Whether a deletion names exactly the entities of its project.
pub open spec fn names_all(deletion: DeletionView, tables: Tables) -> bool {
    forall|kind: EntityType, id: Seq<char>| #[trigger]
        deletion.owned(kind).contains(id) <==> tables.owns(
            deletion.project_id,
            Entity { kind, id },
        )
}

/// Deleting a project removes it and all that belongs to it, and nothing
/// else: its row, its workspaces, its tasks, iterations and artifacts with
/// all that hangs on them, its transactions with their events, and its digest
/// cache. The files of all its entities, and its own, are marked as deleted.
/// That holds whatever is recorded while entities are deleted.
pub proof fn deletion_removes_the_project_and_nothing_else(
    world: World,
    deletion: DeletionView,
    events: spec_fn(Entity) -> Set<Seq<char>>,
)
    requires
        names_all(deletion, world.tables),
        world.tables.events_have_transactions(),
        !world.tables.transactions.contains_key(deletion.transaction_id),
    ensures
        world.run(deletion.plan(), events).tables == world.tables.without(deletion.project_id),
        world.run(deletion.plan(), events).project_tombstone,
        forall|e: Entity| #[trigger]
            world.run(deletion.plan(), events).tombstones.contains(e) <==> world.tombstones.contains(
                e,
            ) || world.tables.owns(deletion.project_id, e),
{
    let p = deletion.project_id;
    let t0 = world.tables;
    let opening = seq![Planned::Execute(deletion.opening())];
    let a = entity_plan(deletion, EntityType::Task);
    let b = entity_plan(deletion, EntityType::Iteration);
    let c = entity_plan(deletion, EntityType::Artifact);
    let closing = deletion.closing();
    let w0 = world.step(opening[0], events);
    let w1 = w0.run(a, events);
    let w2 = w1.run(b, events);
    let w3 = w2.run(c, events);
    let w4 = w3.step(closing[0], events).step(closing[1], events).step(closing[2], events).step(
        closing[3],
        events,
    ).step(closing[4], events);
    assert(world.run(opening, events) == w0) by {
        reveal_with_fuel(World::run, 2);
        assert(opening.drop_last() =~= Seq::empty());
    }
    assert(w3.run(closing, events) == w4) by {
        reveal_with_fuel(World::run, 6);
        assert(closing.drop_last().drop_last().drop_last().drop_last().drop_last() =~= Seq::empty());
    }
    lemma_run_both(world, opening, a, events);
    lemma_run_both(world, opening + a, b, events);
    lemma_run_both(world, opening + a + b, c, events);
    lemma_run_both(world, opening + a + b + c, closing, events);
    assert(world.run(deletion.plan(), events) == w4);
    lemma_entity_steps(w0, deletion, EntityType::Task, deletion.tasks, events);
    lemma_entity_steps(w1, deletion, EntityType::Iteration, deletion.iterations, events);
    lemma_entity_steps(w2, deletion, EntityType::Artifact, deletion.artifacts, events);
    let x = entities_of(EntityType::Task, deletion.tasks);
    let y = entities_of(EntityType::Iteration, deletion.iterations);
    let z = entities_of(EntityType::Artifact, deletion.artifacts);
    lemma_swept_both(w0, w1, w2, x, y, deletion);
    lemma_swept_both(w0, w2, w3, x.union(y), z, deletion);
    let all = doomed(deletion);
    assert(swept(w0, w3, all, deletion));
    assert forall|e: Entity| #[trigger] all.contains(e) <==> t0.owns(p, e) by {
        assert(deletion.owned(e.kind).contains(e.id) <==> t0.owns(
            p,
            Entity { kind: e.kind, id: e.id },
        ));
        assert(e == (Entity { kind: e.kind, id: e.id }));
    }
    let end = t0.without(p);
    assert(w4.tables.projects =~= end.projects);
    assert(w4.tables.workspaces =~= end.workspaces);
    assert(w4.tables.entities =~= end.entities);
    assert forall|child: ChildRow| w4.tables.children.contains(child) <==> end.children.contains(
        child,
    ) by {
        if child.ends.disjoint(all) {
            assert forall|e: Entity| child.ends.contains(e) implies !t0.owns(p, e) by {
                assert(!all.contains(e));
            }
        }
        if forall|e: Entity| child.ends.contains(e) ==> !t0.owns(p, e) {
            assert(child.ends.disjoint(all));
        }
        assert(w3.tables.children.contains(child) <==> t0.children.contains(child)
            && child.ends.disjoint(all));
    }
    assert(w4.tables.children =~= end.children);
    assert(w4.tables.transactions =~= end.transactions);
    assert forall|e: Seq<char>| w4.tables.events.contains_key(e) <==> end.events.contains_key(e) by {
        if w3.tables.events.contains_key(e) && !t0.events.contains_key(e) {
            assert(w3.tables.events[e] == deletion.transaction_id);
        }
        if t0.events.contains_key(e) {
            assert(w0.tables.events.contains_key(e));
            assert(w3.tables.events.contains_key(e));
        }
    }
    assert(w4.tables.events =~= end.events);
    assert forall|digest: Digest| w4.tables.digests.contains(digest) <==> end.digests.contains(
        digest,
    ) by {
        if t0.digests.contains(digest) {
            assert(w0.tables.digests.contains(digest));
        }
    }
    assert(w4.tables.digests =~= end.digests);
    assert forall|e: Entity| #[trigger]
        w4.tombstones.contains(e) <==> world.tombstones.contains(e) || t0.owns(p, e) by {
        assert(all.contains(e) <==> t0.owns(p, e));
    }
}

/// Archiving a project hides it from the list of active projects, keeps it in
/// the list of all, detaches its workspaces, and leaves other projects as
/// they are.
pub proof fn archiving_hides_the_project(tables: Tables, id: Seq<char>, now: Seq<char>)
    requires
        tables.projects.contains_key(id),
    ensures
        ({
            let after = tables.after(
                seq![
                    Change::ArchiveProject { id, now },
                    Change::DeleteWorkspacesOf { project_id: id },
                ],
            );
            &&& !after.lists(id, false)
            &&& after.lists(id, true)
            &&& after.projects[id].archived_at == Some(now)
            &&& after.projects[id].updated_at == now
            &&& after.projects[id].root == tables.projects[id].root
            &&& after.projects[id].created_at == tables.projects[id].created_at
            &&& forall|w: Seq<char>| #[trigger]
                after.workspaces.contains_key(w) <==> tables.workspaces.contains_key(w)
                    && tables.workspaces[w].project_id != id
            &&& forall|w: Seq<char>| #[trigger]
                after.workspaces.contains_key(w) ==> after.workspaces[w] == tables.workspaces[w]
            &&& after == (Tables {
                projects: after.projects,
                workspaces: after.workspaces,
                ..tables
            })
            &&& forall|other: Seq<char>| #[trigger]
                after.projects.contains_key(other) <==> tables.projects.contains_key(other)
            &&& forall|other: Seq<char>| #[trigger]
                tables.projects.contains_key(other) && other != id ==> after.projects.contains_key(
                    other,
                ) && after.projects[other] == tables.projects[other]
        }),
{
    reveal_with_fuel(Tables::after, 3);
    let changes = seq![
        Change::ArchiveProject { id, now },
        Change::DeleteWorkspacesOf { project_id: id },
    ];
    assert(changes.drop_last().drop_last() =~= Seq::empty());
}

/// Archiving a project is one operation. Whatever number of its statements
/// are executed, the stored tables are as they were until the last is, and
/// then the project is marked and its workspaces are detached. Where one
/// fails, rolling back leaves everything as it was.
pub proof fn archiving_is_one_operation(
    tables: Tables,
    id: Seq<char>,
    now: TimestampView,
    executed: int,
)
    requires
        0 <= executed <= archive_plan(id, now).len(),
    ensures
        ({
            let session = Session::new(tables).run(archive_plan(id, now).take(executed));
            if executed < archive_plan(id, now).len() {
                &&& session.stored == tables
                &&& session.step(TransactionStep::Rollback) == Session::new(tables)
            } else {
                session == Session::new(
                    tables.after(
                        seq![
                            Change::ArchiveProject { id, now: now.text() },
                            Change::DeleteWorkspacesOf { project_id: id },
                        ],
                    ),
                )
            }
        }),
{
    reveal_with_fuel(Session::run, 5);
    reveal_with_fuel(Tables::after, 3);
    let plan = archive_plan(id, now);
    let changes = seq![
        Change::ArchiveProject { id, now: now.text() },
        Change::DeleteWorkspacesOf { project_id: id },
    ];
    assert(changes.drop_last().drop_last() =~= Seq::empty());
    assert(plan.take(0) =~= Seq::empty());
    assert(plan.take(1).drop_last() =~= plan.take(0));
    assert(plan.take(2).drop_last() =~= plan.take(1));
    assert(plan.take(3).drop_last() =~= plan.take(2));
    assert(plan.take(4).drop_last() =~= plan.take(3));
    assert(executed == 0 || executed == 1 || executed == 2 || executed == 3 || executed == 4);
}

/// Unarchiving an archived project makes it active again, with its root and
/// the time of its creation; its workspaces stay detached, and other projects
/// stay as they are.
pub proof fn unarchiving_restores_the_project(
    tables: Tables,
    id: Seq<char>,
    then: Seq<char>,
    now: Seq<char>,
)
    requires
        tables.projects.contains_key(id),
    ensures
        ({
            let archived = tables.after(
                seq![
                    Change::ArchiveProject { id, now: then },
                    Change::DeleteWorkspacesOf { project_id: id },
                ],
            );
            let after = (Change::UnarchiveProject { id, now }).applied(archived);
            &&& after.lists(id, false)
            &&& after.projects[id].archived_at is None
            &&& after.projects[id].updated_at == now
            &&& after.projects[id].root == tables.projects[id].root
            &&& after.projects[id].created_at == tables.projects[id].created_at
            &&& after == (Tables { projects: after.projects, ..archived })
            &&& forall|other: Seq<char>| #[trigger]
                tables.projects.contains_key(other) && other != id ==> after.projects.contains_key(
                    other,
                ) && after.projects[other] == tables.projects[other]
            &&& forall|other: Seq<char>| #[trigger]
                after.projects.contains_key(other) <==> tables.projects.contains_key(other)
        }),
{
    archiving_hides_the_project(tables, id, then);
}

/// A path that was attached to a project leads to it.
pub proof fn attached_paths_lead_to_the_project(
    tables: Tables,
    project_id: Seq<char>,
    id: Seq<char>,
    row: WorkspaceRow,
)
    requires
        tables.projects.contains_key(project_id),
        row.project_id == project_id,
    ensures
        (Change::InsertWorkspace { id, row }).applied(tables).leads_to(row.path, project_id),
{
    let after = (Change::InsertWorkspace { id, row }).applied(tables);
    assert(after.workspaces.contains_key(id));
}

/// A path that was detached leads only to the project that has it as its
/// root.
pub proof fn detached_paths_lead_to_roots_only(tables: Tables, path: Seq<char>, id: Seq<char>)
    ensures
        (Change::DeleteWorkspacesAt { path }).applied(tables).leads_to(path, id) <==> (
        tables.projects.contains_key(id) && tables.projects[id].root == path),
{
}

/// A project that was made is active, and its root leads to it.
pub proof fn created_projects_are_found(tables: Tables, creation: CreationView)
    ensures
        ({
            let after = creation.insertion().applied(tables);
            &&& after.lists(creation.identity.id, false)
            &&& after.leads_to(creation.root, creation.identity.id)
        }),
{
}

/// All checkouts of a project share its identity: one that is made where the
/// `project.yaml` of a project was written has the identity of that project,
/// and the file leads to its id.
pub proof fn checkouts_share_the_identity(project: ProjectView, fresh: IdentityView)
    ensures
        identity_for(Some(written(project)), fresh) == (IdentityView {
            id: project.id,
            created_at: project.created_at,
            updated_at: project.updated_at,
        }),
        synced_id(Some(written(project))) == Some(project.id),
{
}

/// A deleted project is not revived from its file.
pub proof fn deleted_projects_stay_deleted(file: ProjectFileView, at: TimestampView)
    ensures
        synced_id(Some(ProjectFileView { deleted_at: Some(at), ..file })) is None,
{
}

/// The projects of a list that are not archived, in order.
pub open spec fn active(rows: Seq<ListedProject>) -> Seq<ListedProject> {
    rows.filter(|listed: ListedProject| listed.row.archived_at is None)
}

/// Leaving out projects keeps the order, and each project once.
proof fn lemma_active(rows: Seq<ListedProject>)
    requires
        newest_first(rows),
        each_once(rows),
    ensures
        newest_first(active(rows)),
        each_once(active(rows)),
        forall|listed: ListedProject| #[trigger]
            active(rows).contains(listed) <==> rows.contains(listed) && listed.row.archived_at
                is None,
    decreases rows.len(),
{
    reveal(Seq::filter);
    let is_active = |listed: ListedProject| listed.row.archived_at is None;
    lemma_filter_members(rows, is_active);
    if rows.len() > 0 {
        let rest = rows.drop_last();
        let last = rows.last();
        assert forall|i: int, j: int| 0 <= i < j < rest.len() implies !text_less(
            (#[trigger] rest[i]).row.created_at,
            (#[trigger] rest[j]).row.created_at,
        ) && rest[i].id != rest[j].id by {
            assert(rest[i] == rows[i] && rest[j] == rows[j]);
        }
        lemma_active(rest);
        let kept = active(rest);
        assert(active(rows) == if is_active(last) {
            kept.push(last)
        } else {
            kept
        });
        assert forall|i: int| 0 <= i < kept.len() implies !text_less(
            (#[trigger] kept[i]).row.created_at,
            last.row.created_at,
        ) && kept[i].id != last.id by {
            assert(kept.contains(kept[i]));
            let k = choose|k: int| 0 <= k < rest.len() && rest[k] == kept[i];
            assert(rows[k] == kept[i]);
            assert(rows[rows.len() - 1] == last);
        }
        assert forall|i: int, j: int| 0 <= i < j < active(rows).len() implies !text_less(
            (#[trigger] active(rows)[i]).row.created_at,
            (#[trigger] active(rows)[j]).row.created_at,
        ) && active(rows)[i].id != active(rows)[j].id by {
            if j < kept.len() {
                assert(active(rows)[i] == kept[i] && active(rows)[j] == kept[j]);
            } else {
                assert(active(rows)[i] == kept[i] && active(rows)[j] == last);
            }
        }
    }
}

/// The list of projects shows each project that it is to show once, the
/// newest first, and no other.
pub proof fn projects_are_listed_once(
    tables: Tables,
    include_archived: bool,
    rows: Seq<ListedProject>,
)
    requires
        tables.answers(Query::Projects { include_archived }, Answer::Projects(rows)),
    ensures
        newest_first(rows),
        each_once(rows),
        forall|id: Seq<char>| #[trigger]
            tables.lists(id, include_archived) <==> exists|i: int|
                0 <= i < rows.len() && (#[trigger] rows[i]).id == id,
        forall|i: int| 0 <= i < rows.len() ==> tables.has(#[trigger] rows[i]),
{
    assert forall|i: int| 0 <= i < rows.len() implies tables.has(#[trigger] rows[i])
        && tables.lists(rows[i].id, include_archived) by {
        assert(rows.contains(rows[i]));
    }
    assert forall|id: Seq<char>| #[trigger] tables.lists(id, include_archived) implies exists|i: int|
        0 <= i < rows.len() && (#[trigger] rows[i]).id == id by {
        let listed = ListedProject { id, row: tables.projects[id] };
        assert(rows.contains(listed));
        let k = choose|k: int| 0 <= k < rows.len() && rows[k] == listed;
        assert(rows[k].id == id);
    }
}

/// The list of active projects is the list of all without the archived ones.
pub proof fn active_projects_are_all_but_the_archived(tables: Tables, rows: Seq<ListedProject>)
    requires
        tables.answers(Query::Projects { include_archived: true }, Answer::Projects(rows)),
    ensures
        tables.answers(Query::Projects { include_archived: false }, Answer::Projects(active(rows))),
{
    lemma_active(rows);
}

/// A project that was made is the one that is then found by its id: it has
/// the identity and the root that it was made with, it is active, and the
/// file that is written for it leads to it from another checkout.
pub proof fn created_projects_are_stored(
    tables: Tables,
    creation: CreationView,
    rows: Seq<ListedProject>,
    found: ProjectView,
    fresh: IdentityView,
)
    requires
        creation.insertion().applied(tables).answers(
            Query::ProjectById { id: creation.identity.id },
            Answer::Projects(rows),
        ),
        rows.len() > 0 ==> rows[0] == found.listed(),
    ensures
        rows.len() == 1,
        found.id == creation.identity.id,
        found.root == creation.root,
        found.archived_at is None,
        found.created_at.text() == creation.identity.created_at.text(),
        found.updated_at.text() == creation.identity.updated_at.text(),
        synced_id(Some(written(found))) == Some(creation.identity.id),
        identity_for(Some(written(found)), fresh).id == creation.identity.id,
        forall|other: Seq<char>| #[trigger]
            tables.projects.contains_key(other) && other != creation.identity.id
                ==> creation.insertion().applied(tables).projects.contains_key(other)
                && creation.insertion().applied(tables).projects[other] == tables.projects[other],
{
}

/// The tables once the project that a file describes was found or made.
pub open spec fn synced(tables: Tables, file: ProjectFileView, root: Seq<char>) -> Tables {
    match synced_id(Some(file)) {
        Some(id) if !tables.projects.contains_key(id) => CreationView {
            identity: file.identity,
            root,
        }.insertion().applied(tables),
        _ => tables,
    }
}

/// The project that a file describes is there once it was found or made. One
/// that was there is kept as it is; one that was not has the identity of the
/// file and the root that it was asked for with. To ask again, for whatever
/// root, changes nothing.
pub proof fn synced_projects_are_made_once(
    tables: Tables,
    file: ProjectFileView,
    root: Seq<char>,
    again: Seq<char>,
)
    requires
        file.deleted_at is None,
    ensures
        synced(tables, file, root).projects.contains_key(file.identity.id),
        tables.projects.contains_key(file.identity.id) ==> synced(tables, file, root) == tables,
        !tables.projects.contains_key(file.identity.id) ==> synced(
            tables,
            file,
            root,
        ).projects[file.identity.id] == (ProjectRow {
            root,
            archived_at: None,
            created_at: file.identity.created_at.text(),
            updated_at: file.identity.updated_at.text(),
        }),
        synced(synced(tables, file, root), file, again) == synced(tables, file, root),
        forall|other: Seq<char>| #[trigger]
            tables.projects.contains_key(other) ==> synced(tables, file, root).projects.contains_key(
                other,
            ) && (other != file.identity.id ==> synced(tables, file, root).projects[other]
                == tables.projects[other]),
{
}

/// Deleting a project counts what was counted before, and leaves nothing of
/// it: as many tasks, iterations and artifacts are deleted as the project
/// had, and then it has none, no workspaces and no row. No transaction is
/// left of it, not even that of the deletion, and no event of one. Other
/// projects keep their rows, entities and workspaces.
pub proof fn deletion_counts_what_was_there(
    world: World,
    deletion: DeletionView,
    events: spec_fn(Entity) -> Set<Seq<char>>,
)
    requires
        world.tables.answers(
            Query::IdsOwned { table: Table::Tasks, project_id: deletion.project_id },
            Answer::Ids(deletion.tasks),
        ),
        world.tables.answers(
            Query::IdsOwned { table: Table::Iterations, project_id: deletion.project_id },
            Answer::Ids(deletion.iterations),
        ),
        world.tables.answers(
            Query::IdsOwned { table: Table::Artifacts, project_id: deletion.project_id },
            Answer::Ids(deletion.artifacts),
        ),
        world.tables.events_have_transactions(),
        !world.tables.transactions.contains_key(deletion.transaction_id),
    ensures
        ({
            let p = deletion.project_id;
            let before = world.tables;
            let after = world.run(deletion.plan(), events).tables;
            &&& names_all(deletion, before)
            &&& before.answers(
                Query::CountOwned { table: Table::Tasks, project_id: p },
                Answer::Count(deletion.tasks.len()),
            )
            &&& before.answers(
                Query::CountOwned { table: Table::Iterations, project_id: p },
                Answer::Count(deletion.iterations.len()),
            )
            &&& before.answers(
                Query::CountOwned { table: Table::Artifacts, project_id: p },
                Answer::Count(deletion.artifacts.len()),
            )
            &&& after.answers(
                Query::CountOwned { table: Table::Tasks, project_id: p },
                Answer::Count(0),
            )
            &&& after.answers(
                Query::CountOwned { table: Table::Iterations, project_id: p },
                Answer::Count(0),
            )
            &&& after.answers(
                Query::CountOwned { table: Table::Artifacts, project_id: p },
                Answer::Count(0),
            )
            &&& after.answers(Query::CountWorkspaces { project_id: p }, Answer::Count(0))
            &&& after.answers(Query::ProjectById { id: p }, Answer::Projects(Seq::empty()))
            &&& forall|t: Seq<char>| #[trigger]
                after.transactions.contains_key(t) ==> after.transactions[t] != p
            &&& !after.transactions.contains_key(deletion.transaction_id)
            &&& after.events_have_transactions()
            &&& forall|other: Seq<char>| #[trigger]
                before.projects.contains_key(other) && other != p ==> after.projects.contains_key(
                    other,
                ) && after.projects[other] == before.projects[other]
            &&& forall|kind: EntityType, other: Seq<char>|
                other != p ==> #[trigger] after.owned(kind, other) == before.owned(kind, other)
            &&& forall|other: Seq<char>|
                other != p ==> #[trigger] after.workspaces_of(other) == before.workspaces_of(other)
        }),
{
    let p = deletion.project_id;
    let before = world.tables;
    let after = world.run(deletion.plan(), events).tables;
    assert forall|kind: EntityType, id: Seq<char>| #[trigger]
        deletion.owned(kind).contains(id) <==> before.owns(p, Entity { kind, id }) by {
        let ids = deletion.owned(kind);
        assert(ids.to_set() == before.owned(kind, p));
        assert(ids.to_set().contains(id) <==> ids.contains(id));
        assert(before.owned(kind, p).contains(id) <==> before.owns(p, Entity { kind, id }));
    }
    deletion.tasks.unique_seq_to_set();
    deletion.iterations.unique_seq_to_set();
    deletion.artifacts.unique_seq_to_set();
    deletion_removes_the_project_and_nothing_else(world, deletion, events);
    assert(after.owned(EntityType::Task, p) =~= Set::empty());
    assert(after.owned(EntityType::Iteration, p) =~= Set::empty());
    assert(after.owned(EntityType::Artifact, p) =~= Set::empty());
    assert(after.workspaces_of(p) =~= Set::empty());
    assert forall|kind: EntityType, other: Seq<char>| other != p implies #[trigger] after.owned(
        kind,
        other,
    ) == before.owned(kind, other) by {
        assert(after.owned(kind, other) =~= before.owned(kind, other));
    }
    assert forall|other: Seq<char>| other != p implies #[trigger] after.workspaces_of(other)
        == before.workspaces_of(other) by {
        assert(after.workspaces_of(other) =~= before.workspaces_of(other));
    }
}

/// Detaching a path tells whether a workspace had it: the first time it does
/// where one had, and never the second time. Then the path leads to no
/// project, unless it is the root of one, and all other workspaces and all
/// projects are as they were.
pub proof fn detaching_tells_whether_the_path_was_attached(
    tables: Tables,
    path: Seq<char>,
    first: u64,
    second: u64,
)
    requires
        tables.workspaces.dom().finite(),
        first == tables.workspaces_at(path).len(),
        second == (Change::DeleteWorkspacesAt { path }).applied(tables).workspaces_at(path).len(),
    ensures
        ({
            let after = (Change::DeleteWorkspacesAt { path }).applied(tables);
            &&& any_deleted(first) <==> exists|w: Seq<char>| #[trigger]
                tables.workspaces.contains_key(w) && tables.workspaces[w].path == path
            &&& !any_deleted(second)
            &&& forall|w: Seq<char>| #[trigger]
                after.workspaces.contains_key(w) <==> tables.workspaces.contains_key(w)
                    && tables.workspaces[w].path != path
            &&& forall|w: Seq<char>| #[trigger]
                after.workspaces.contains_key(w) ==> after.workspaces[w] == tables.workspaces[w]
            &&& after == (Tables { workspaces: after.workspaces, ..tables })
            &&& (forall|id: Seq<char>| #[trigger]
                tables.projects.contains_key(id) ==> tables.projects[id].root != path)
                ==> after.answers(Query::ProjectByPath { path }, Answer::Projects(Seq::empty()))
        }),
{
    let after = (Change::DeleteWorkspacesAt { path }).applied(tables);
    let at = tables.workspaces_at(path);
    assert(at.subset_of(tables.workspaces.dom()));
    vstd::set_lib::lemma_set_subset_finite(tables.workspaces.dom(), at);
    if exists|w: Seq<char>| #[trigger]
        tables.workspaces.contains_key(w) && tables.workspaces[w].path == path {
        let w = choose|w: Seq<char>| #[trigger]
            tables.workspaces.contains_key(w) && tables.workspaces[w].path == path;
        assert(at.contains(w));
        assert(at.len() > 0) by {
            if at.len() == 0 {
                assert(at =~= Set::empty());
            }
        }
    } else {
        assert(at =~= Set::empty());
    }
    assert(after.workspaces_at(path) =~= Set::empty());
}

} // verus!
