//! Multiplayer session bookkeeping: the network role, outgoing remote
//! calls, replicated objects with their changed properties, client interest
//! by distance, physics bodies and players.
//!
//! Positions are whole world units.
use vstd::prelude::*;
use crate::assoc::{AssocMap, MapKey};
use crate::config_bridge::{SettingValue, SettingValueView};

verus! {

/// The role of this instance in a multiplayer game.
#[derive(Clone, Copy, Debug, PartialEq, Eq, Structural)]
pub enum NetworkRole {
    Host,
    Client,
    Standalone,
}

/// Identifier of a client, an object or a player.
#[derive(Clone, Copy, Debug, PartialEq, Eq, Hash, Structural)]
pub struct Id {
    pub id: u64,
}

impl View for Id {
    type V = u64;

    open spec fn view(&self) -> u64 {
        self.id
    }
}

impl MapKey for Id {
    fn same_key(&self, other: &Self) -> (b: bool) {
        self.id == other.id
    }

    fn copy_key(&self) -> (k: Self) {
        *self
    }
}

/// A position in whole world units.
#[derive(Clone, Copy, Debug, PartialEq, Eq, Structural)]
pub struct Position {
    pub x: i32,
    pub y: i32,
    pub z: i32,
}

impl View for Position {
    type V = Position;

    open spec fn view(&self) -> Position {
        *self
    }
}

/// Where a remote call goes.
#[derive(Clone, Copy, Debug, PartialEq, Eq, Structural)]
pub enum RpcTarget {
    Client(u64),
    AllClients,
    Host,
}

/// A remote call waiting to be sent.
pub struct RpcMessage {
    pub target: RpcTarget,
    pub method: String,
    pub args: Vec<SettingValue>,
}

/// The arguments as plain values.
pub open spec fn args_view(args: Seq<SettingValue>) -> Seq<SettingValueView> {
    args.map_values(|a: SettingValue| a@)
}

fn copy_args(args: &[SettingValue]) -> (v: Vec<SettingValue>)
    ensures
        args_view(v@) == args_view(args@),
{
    let mut v: Vec<SettingValue> = Vec::new();
    let mut i: usize = 0;
    while i < args.len()
        invariant
            i <= args@.len(),
            v@.len() == i,
            forall|j: int| 0 <= j < i ==> v@[j] == args@[j],
        decreases args@.len() - i,
    {
        v.push(args[i].clone());
        i = i + 1;
    }
    proof {
        assert(v@ =~= args@);
    }
    v
}

/// The networking of a session: its role and the calls waiting to be sent.
pub struct NetworkSystem {
    role: NetworkRole,
    outbox: Vec<RpcMessage>,
}

impl NetworkSystem {
    pub closed spec fn role_spec(&self) -> NetworkRole {
        self.role
    }

    /// The calls waiting to be sent, oldest first.
    pub closed spec fn outbox(&self) -> Seq<RpcMessage> {
        self.outbox@
    }

    /// Networking in `role`, with nothing to send.
    pub fn new(role: NetworkRole) -> (n: Self)
        ensures
            n.role_spec() == role,
            n.outbox().len() == 0,
    {
        NetworkSystem { role, outbox: Vec::new() }
    }

    pub fn role(&self) -> (r: NetworkRole)
        ensures
            r == self.role_spec(),
    {
        self.role
    }

    /// Queues a call of `method` on client `target`.
    pub fn send_rpc(&mut self, target: u64, method: &str, args: &[SettingValue])
        ensures
            final(self).role_spec() == old(self).role_spec(),
            final(self).outbox().len() == old(self).outbox().len() + 1,
            final(self).outbox().drop_last() == old(self).outbox(),
            final(self).outbox().last().target == RpcTarget::Client(target),
            final(self).outbox().last().method@ == method@,
            args_view(final(self).outbox().last().args@) == args_view(args@),
    {
        self.push_message(RpcTarget::Client(target), method, args);
    }

    /// Queues a call of `method` on every connected client.
    pub fn broadcast_rpc(&mut self, method: &str, args: &[SettingValue])
        ensures
            final(self).role_spec() == old(self).role_spec(),
            final(self).outbox().len() == old(self).outbox().len() + 1,
            final(self).outbox().drop_last() == old(self).outbox(),
            final(self).outbox().last().target == RpcTarget::AllClients,
            final(self).outbox().last().method@ == method@,
            args_view(final(self).outbox().last().args@) == args_view(args@),
    {
        self.push_message(RpcTarget::AllClients, method, args);
    }

    /// Queues a call of `method` on the host.
    pub fn send_to_host(&mut self, method: &str, args: &[SettingValue])
        ensures
            final(self).role_spec() == old(self).role_spec(),
            final(self).outbox().len() == old(self).outbox().len() + 1,
            final(self).outbox().drop_last() == old(self).outbox(),
            final(self).outbox().last().target == RpcTarget::Host,
            final(self).outbox().last().method@ == method@,
            args_view(final(self).outbox().last().args@) == args_view(args@),
    {
        self.push_message(RpcTarget::Host, method, args);
    }

    fn push_message(&mut self, target: RpcTarget, method: &str, args: &[SettingValue])
        ensures
            final(self).role_spec() == old(self).role_spec(),
            final(self).outbox().len() == old(self).outbox().len() + 1,
            final(self).outbox().drop_last() == old(self).outbox(),
            final(self).outbox().last().target == target,
            final(self).outbox().last().method@ == method@,
            args_view(final(self).outbox().last().args@) == args_view(args@),
    {
        let msg = RpcMessage { target, method: method.to_owned(), args: copy_args(args) };
        self.outbox.push(msg);
        proof {
            assert(self.outbox@.drop_last() =~= old(self).outbox@);
        }
    }

    /// Hands over the calls waiting to be sent, oldest first.
    pub fn take_outbox(&mut self) -> (msgs: Vec<RpcMessage>)
        ensures
            msgs@ == old(self).outbox(),
            final(self).outbox().len() == 0,
            final(self).role_spec() == old(self).role_spec(),
    {
        let mut msgs: Vec<RpcMessage> = Vec::new();
        std::mem::swap(&mut msgs, &mut self.outbox);
        msgs
    }
}

/// How an object is replicated.
#[derive(Clone, Copy, Debug, PartialEq, Eq, Structural)]
pub enum ReplicationType {
    Full,
    Delta,
}

/// A replicated object, where it stands, and the properties changed since
/// the last update.
pub struct ReplicatedObject {
    pub replication_type: ReplicationType,
    pub position: Position,
    pub changed: AssocMap<String, SettingValue>,
}

/// A replicated object as plain values; `wf` holds when its changed
/// properties are well kept.
pub struct ReplicatedObjectView {
    pub replication_type: ReplicationType,
    pub position: Position,
    pub changed: Map<Seq<char>, SettingValueView>,
    pub wf: bool,
}

impl View for ReplicatedObject {
    type V = ReplicatedObjectView;

    open spec fn view(&self) -> ReplicatedObjectView {
        ReplicatedObjectView {
            replication_type: self.replication_type,
            position: self.position,
            changed: self.changed.map(),
            wf: self.changed.wf(),
        }
    }
}

/// The changes of one object sent in an update, and the clients they go
/// to.
pub struct ObjectUpdate {
    pub object_id: u64,
    pub changes: AssocMap<String, SettingValue>,
    pub clients: Vec<u64>,
}

/// The objects being replicated, and which clients care about which
/// positions.
pub struct ReplicationSystem {
    tracked_objects: AssocMap<Id, ReplicatedObject>,
    interest_manager: InterestManager,
}

impl ReplicationSystem {
    pub closed spec fn wf(&self) -> bool {
        &&& self.tracked_objects.wf()
        &&& forall|k: u64| #[trigger] self.tracked_objects.map().dom().contains(k) ==> self.tracked_objects.map()[k].wf
        &&& self.interest_manager.wf()
    }

    /// The last known position of each client.
    pub closed spec fn client_positions(&self) -> Map<u64, Position> {
        self.interest_manager.positions()
    }

    /// The interest radius of each client.
    pub closed spec fn client_radii(&self) -> Map<u64, u64> {
        self.interest_manager.radii().map_values(|r: u32| r as u64)
    }

    /// The tracked objects by id.
    pub closed spec fn objects(&self) -> Map<u64, ReplicatedObjectView> {
        self.tracked_objects.map()
    }

    pub fn new() -> (r: Self)
        ensures
            r.wf(),
            r.objects() == Map::<u64, ReplicatedObjectView>::empty(),
            r.client_positions() == Map::<u64, Position>::empty(),
            r.client_radii() == Map::<u64, u64>::empty(),
    {
        let r = ReplicationSystem { tracked_objects: AssocMap::new(), interest_manager: InterestManager::new() };
        proof {
            assert(r.client_radii() =~= Map::<u64, u64>::empty());
        }
        r
    }

    /// Starts replicating `object_id`, standing at `position`, with nothing
    /// changed; an object already tracked starts over.
    pub fn register_object(&mut self, object_id: u64, replication_type: ReplicationType, position: Position)
        requires
            old(self).wf(),
        ensures
            final(self).wf(),
            final(self).objects() == old(self).objects().insert(object_id,
                ReplicatedObjectView { replication_type, position, changed: Map::empty(), wf: true }),
            final(self).client_positions() == old(self).client_positions(),
            final(self).client_radii() == old(self).client_radii(),
    {
        let obj = ReplicatedObject { replication_type, position, changed: AssocMap::new() };
        self.tracked_objects.insert(Id { id: object_id }, obj);
    }

    /// Moves a tracked object to `position`, keeping its changes; an
    /// untracked object is left alone.
    pub fn move_object(&mut self, object_id: u64, position: Position)
        requires
            old(self).wf(),
        ensures
            final(self).wf(),
            old(self).objects().dom().contains(object_id) ==> final(self).objects() == old(self).objects().insert(object_id,
                ReplicatedObjectView { position, ..old(self).objects()[object_id] }),
            !old(self).objects().dom().contains(object_id) ==> final(self).objects() == old(self).objects(),
            final(self).client_positions() == old(self).client_positions(),
            final(self).client_radii() == old(self).client_radii(),
    {
        let key = Id { id: object_id };
        match self.tracked_objects.remove(&key) {
            None => {},
            Some(mut obj) => {
                obj.position = position;
                self.tracked_objects.insert(key, obj);
                proof {
                    assert(self.tracked_objects.map() =~= old(self).tracked_objects.map().insert(object_id,
                        ReplicatedObjectView { position, ..old(self).objects()[object_id] }));
                }
            },
        }
    }

    /// Records where client `client_id` is.
    pub fn update_player_position(&mut self, client_id: u64, position: Position)
        requires
            old(self).wf(),
        ensures
            final(self).wf(),
            final(self).objects() == old(self).objects(),
            final(self).client_positions() == old(self).client_positions().insert(client_id, position),
            final(self).client_radii() == old(self).client_radii(),
    {
        self.interest_manager.update_player_position(client_id, position);
    }

    /// Sets how far client `client_id` cares about objects.
    pub fn set_interest_radius(&mut self, client_id: u64, radius: u32)
        requires
            old(self).wf(),
        ensures
            final(self).wf(),
            final(self).objects() == old(self).objects(),
            final(self).client_positions() == old(self).client_positions(),
            final(self).client_radii() == old(self).client_radii().insert(client_id, radius as u64),
    {
        self.interest_manager.set_interest_radius(client_id, radius);
        proof {
            assert(self.client_radii() =~= old(self).client_radii().insert(client_id, radius as u64));
        }
    }

    /// Marks `property` of a tracked object as changed to `value`; an
    /// untracked object is left alone.
    pub fn update_property(&mut self, object_id: u64, property: &str, value: SettingValue)
        requires
            old(self).wf(),
        ensures
            final(self).wf(),
            old(self).objects().dom().contains(object_id) ==> final(self).objects() == old(self).objects().insert(object_id,
                ReplicatedObjectView {
                    changed: old(self).objects()[object_id].changed.insert(property@, value@),
                    wf: true,
                    ..old(self).objects()[object_id]
                }),
            !old(self).objects().dom().contains(object_id) ==> final(self).objects() == old(self).objects(),
            final(self).client_positions() == old(self).client_positions(),
            final(self).client_radii() == old(self).client_radii(),
    {
        let key = Id { id: object_id };
        match self.tracked_objects.remove(&key) {
            None => {},
            Some(mut obj) => {
                obj.changed.insert(property.to_owned(), value);
                self.tracked_objects.insert(key, obj);
                proof {
                    assert(self.tracked_objects.map() =~= old(self).tracked_objects.map().insert(object_id,
                        ReplicatedObjectView {
                            changed: old(self).objects()[object_id].changed.insert(property@, value@),
                            wf: true,
                            ..old(self).objects()[object_id]
                        }));
                }
            },
        }
    }

    /// Hands over the changes of every object that has any, each paired
    /// with the clients interested in where the object stands, and starts
    /// each object over with nothing changed.
    pub fn send_updates(&mut self) -> (updates: Vec<ObjectUpdate>)
        requires
            old(self).wf(),
        ensures
            final(self).wf(),
            final(self).objects().dom() == old(self).objects().dom(),
            forall|k: u64| #[trigger] final(self).objects().dom().contains(k) ==>
                final(self).objects()[k].replication_type == old(self).objects()[k].replication_type
                && final(self).objects()[k].position == old(self).objects()[k].position
                && final(self).objects()[k].changed == Map::<Seq<char>, SettingValueView>::empty(),
            final(self).client_positions() == old(self).client_positions(),
            final(self).client_radii() == old(self).client_radii(),
            updates_of(old(self).objects(), updates@),
            routed_to_interested(old(self).objects(), old(self).client_positions(), old(self).client_radii(), updates@),
    {
        let ghost m0 = self.tracked_objects.map();
        let ghost im0 = self.interest_manager;
        let ids = self.tracked_objects.keys();
        let mut updates: Vec<ObjectUpdate> = Vec::new();
        let mut i: usize = 0;
        while i < ids.len()
            invariant
                self.tracked_objects.wf(),
                self.interest_manager == im0,
                im0.wf(),
                i <= ids@.len(),
                ids@.len() == m0.dom().len(),
                forall|j: int| 0 <= j < ids@.len() ==> m0.dom().contains(#[trigger] ids@[j]@),
                forall|k: u64| m0.dom().contains(k) ==> exists|j: int| 0 <= j < ids@.len() && ids@[j]@ == k,
                forall|a: int, b: int| 0 <= a < b < ids@.len() ==> ids@[a]@ != ids@[b]@,
                forall|k: u64| #[trigger] m0.dom().contains(k) ==> m0[k].wf,
                self.tracked_objects.map().dom() == m0.dom(),
                forall|k: u64| #[trigger] self.tracked_objects.map().dom().contains(k) ==> {
                    &&& self.tracked_objects.map()[k].wf
                    &&& self.tracked_objects.map()[k].replication_type == m0[k].replication_type
                    &&& self.tracked_objects.map()[k].position == m0[k].position
                    &&& if id_seen(ids@, i as int, k) {
                        self.tracked_objects.map()[k].changed == Map::<Seq<char>, SettingValueView>::empty()
                    } else {
                        self.tracked_objects.map()[k].changed == m0[k].changed
                    }
                },
                forall|a: int| 0 <= a < updates@.len() ==> {
                    let u = #[trigger] updates@[a];
                    &&& m0.dom().contains(u.object_id)
                    &&& u.changes.wf()
                    &&& u.changes.map() == m0[u.object_id].changed
                    &&& u.changes.map().dom().len() > 0
                    &&& id_seen(ids@, i as int, u.object_id)
                    &&& clients_of(im0.positions(), im0.radii().map_values(|r: u32| r as u64), m0[u.object_id].position, u.clients@)
                },
                forall|j: int| 0 <= j < i && m0[ids@[j]@].changed.dom().len() > 0 ==>
                    exists|a: int| 0 <= a < updates@.len() && #[trigger] updates@[a].object_id == ids@[j]@,
                forall|a: int, b: int| 0 <= a < b < updates@.len() ==> updates@[a].object_id != updates@[b].object_id,
            decreases ids@.len() - i,
        {
            let key = ids[i];
            proof {
                assert(m0.dom().contains(key@));
                if id_seen(ids@, i as int, key@) {
                    let j = choose|j: int| 0 <= j < i && ids@[j]@ == key@;
                    assert(ids@[j]@ != ids@[i as int]@);
                }
            }
            let ghost before = self.tracked_objects.map();
            let ghost old_updates = updates@;
            match self.tracked_objects.remove(&key) {
                None => {},
                Some(obj) => {
                    let n = obj.changed.len();
                    let fresh = ReplicatedObject {
                        replication_type: obj.replication_type,
                        position: obj.position,
                        changed: AssocMap::new(),
                    };
                    self.tracked_objects.insert(key, fresh);
                    if n > 0 {
                        let clients = self.interest_manager.get_interested_clients(obj.position);
                        updates.push(ObjectUpdate { object_id: key.id, changes: obj.changed, clients });
                    }
                },
            }
            proof {
                assert forall|k: u64| #[trigger] id_seen(ids@, i + 1, k) <==> (id_seen(ids@, i as int, k) || k == key@) by {
                    if k == key@ {
                        assert(ids@[i as int]@ == k);
                    }
                    if id_seen(ids@, i + 1, k) && k != key@ {
                        let j = choose|j: int| 0 <= j < i + 1 && ids@[j]@ == k;
                        assert(j < i);
                    }
                }
                assert(self.tracked_objects.map().dom() =~= m0.dom());
                assert forall|j: int| 0 <= j < i + 1 && m0[ids@[j]@].changed.dom().len() > 0 implies
                    exists|a: int| 0 <= a < updates@.len() && #[trigger] updates@[a].object_id == ids@[j]@ by {
                    if j < i {
                        let a = choose|a: int| 0 <= a < old_updates.len() && #[trigger] old_updates[a].object_id == ids@[j]@;
                        assert(updates@[a] == old_updates[a]);
                    } else {
                        assert(before[key@].changed == m0[key@].changed);
                        let a = updates@.len() - 1;
                        assert(updates@[a].object_id == ids@[j]@);
                    }
                }
            }
            i = i + 1;
        }
        proof {
            assert forall|k: u64| old(self).objects().dom().contains(k) && old(self).objects()[k].changed.dom().len() > 0
                implies exists|a: int| 0 <= a < updates@.len() && #[trigger] updates@[a].object_id == k by {
                let j = choose|j: int| 0 <= j < ids@.len() && ids@[j]@ == k;
                assert(m0[ids@[j]@].changed.dom().len() > 0);
            }
        }
        updates
    }
}

/// `updates` carries, once per object, the changes of every object that
/// has any, and nothing else.
pub open spec fn updates_of(objects: Map<u64, ReplicatedObjectView>, updates: Seq<ObjectUpdate>) -> bool {
    &&& forall|i: int| 0 <= i < updates.len() ==> {
        let u = #[trigger] updates[i];
        &&& objects.dom().contains(u.object_id)
        &&& u.changes.wf()
        &&& u.changes.map() == objects[u.object_id].changed
        &&& u.changes.map().dom().len() > 0
    }
    &&& forall|k: u64| objects.dom().contains(k) && objects[k].changed.dom().len() > 0
        ==> exists|i: int| 0 <= i < updates.len() && #[trigger] updates[i].object_id == k
    &&& forall|i: int, j: int| 0 <= i < j < updates.len() ==> updates[i].object_id != updates[j].object_id
}

/// `clients` are the clients interested in `position`, each once.
pub open spec fn clients_of(positions: Map<u64, Position>, radii: Map<u64, u64>, position: Position, clients: Seq<u64>) -> bool {
    &&& forall|c: u64| clients.contains(c) <==> interested(positions, radii, c, position)
    &&& forall|i: int, j: int| 0 <= i < j < clients.len() ==> clients[i] != clients[j]
}

/// Each update goes exactly to the clients interested in where its object
/// stands.
pub open spec fn routed_to_interested(objects: Map<u64, ReplicatedObjectView>, positions: Map<u64, Position>,
    radii: Map<u64, u64>, updates: Seq<ObjectUpdate>) -> bool {
    forall|i: int| 0 <= i < updates.len() ==>
        clients_of(positions, radii, objects[#[trigger] updates[i].object_id].position, updates[i].clients@)
}

/// Sending updates twice in a row sends nothing the second time: after the
/// first send no object has changes left.
pub proof fn lemma_second_send_is_empty(objects: Map<u64, ReplicatedObjectView>, updates: Seq<ObjectUpdate>)
    requires
        forall|k: u64| #[trigger] objects.dom().contains(k) ==> objects[k].changed == Map::<Seq<char>, SettingValueView>::empty(),
        updates_of(objects, updates),
    ensures
        updates.len() == 0,
{
    if updates.len() > 0 {
        let u = updates[0];
        assert(objects.dom().contains(u.object_id));
        assert(u.changes.map().dom() =~= Set::<Seq<char>>::empty());
    }
}

/// Object `k` is among the first `n` ids.
pub open spec fn id_seen(ids: Seq<Id>, n: int, k: u64) -> bool {
    exists|j: int| 0 <= j < n && ids[j]@ == k
}

/// The squared distance between two positions.
pub open spec fn dist_sq(a: Position, b: Position) -> int {
    (a.x - b.x) * (a.x - b.x) + (a.y - b.y) * (a.y - b.y) + (a.z - b.z) * (a.z - b.z)
}

/// A client cares about a position within its interest radius of it.
pub open spec fn interested(positions: Map<u64, Position>, radii: Map<u64, u64>, c: u64, p: Position) -> bool {
    &&& positions.dom().contains(c)
    &&& radii.dom().contains(c)
    &&& dist_sq(positions[c], p) <= radii[c] as int * radii[c] as int
}

/// Distance-based interest of clients in positions.
pub struct InterestManager {
    player_positions: AssocMap<Id, Position>,
    interest_radii: AssocMap<Id, u32>,
}

/// The squared distance, computed without overflow.
fn distance_squared(a: Position, b: Position) -> (d: u128)
    ensures
        d as int == dist_sq(a, b),
{
    let dx = a.x as i128 - b.x as i128;
    let dy = a.y as i128 - b.y as i128;
    let dz = a.z as i128 - b.z as i128;
    assert(dx * dx >= 0 && dy * dy >= 0 && dz * dz >= 0) by (nonlinear_arith);
    assert(dx * dx <= 0x1_0000_0000_0000_0000 && dy * dy <= 0x1_0000_0000_0000_0000 && dz * dz <= 0x1_0000_0000_0000_0000)
        by (nonlinear_arith)
        requires
            -0x1_0000_0000 <= dx <= 0x1_0000_0000,
            -0x1_0000_0000 <= dy <= 0x1_0000_0000,
            -0x1_0000_0000 <= dz <= 0x1_0000_0000,
    ;
    (dx * dx + dy * dy + dz * dz) as u128
}

impl InterestManager {
    pub closed spec fn wf(&self) -> bool {
        self.player_positions.wf() && self.interest_radii.wf()
    }

    /// The last known position of each client.
    pub closed spec fn positions(&self) -> Map<u64, Position> {
        self.player_positions.map()
    }

    /// The interest radius of each client.
    pub closed spec fn radii(&self) -> Map<u64, u32> {
        self.interest_radii.map()
    }

    pub fn new() -> (m: Self)
        ensures
            m.wf(),
            m.positions() == Map::<u64, Position>::empty(),
            m.radii() == Map::<u64, u32>::empty(),
    {
        InterestManager { player_positions: AssocMap::new(), interest_radii: AssocMap::new() }
    }

    /// Records where client `client_id` is.
    pub fn update_player_position(&mut self, client_id: u64, position: Position)
        requires
            old(self).wf(),
        ensures
            final(self).wf(),
            final(self).positions() == old(self).positions().insert(client_id, position),
            final(self).radii() == old(self).radii(),
    {
        self.player_positions.insert(Id { id: client_id }, position);
    }

    /// Sets how far client `client_id` cares about objects.
    pub fn set_interest_radius(&mut self, client_id: u64, radius: u32)
        requires
            old(self).wf(),
        ensures
            final(self).wf(),
            final(self).radii() == old(self).radii().insert(client_id, radius),
            final(self).positions() == old(self).positions(),
    {
        self.interest_radii.insert(Id { id: client_id }, radius);
    }

    /// Whether an object at `object_position` is within the interest radius
    /// of client `client_id`; a client without a position or a radius cares
    /// about nothing.
    pub fn is_client_interested(&self, client_id: u64, object_position: Position) -> (b: bool)
        requires
            self.wf(),
        ensures
            b == interested(self.positions(), self.radii().map_values(|r: u32| r as u64), client_id, object_position),
    {
        let key = Id { id: client_id };
        match (self.player_positions.get(&key), self.interest_radii.get(&key)) {
            (Some(p), Some(r)) => {
                let d = distance_squared(*p, object_position);
                proof {
                    let rv = *r as int;
                    assert(rv * rv <= 0xffff_ffff * 0xffff_ffff) by (nonlinear_arith)
                        requires
                            0 <= rv <= 0xffff_ffff,
                    ;
                }
                let rr = (*r as u128) * (*r as u128);
                d <= rr
            },
            _ => false,
        }
    }

    /// The clients interested in `position`, each once.
    pub fn get_interested_clients(&self, position: Position) -> (cs: Vec<u64>)
        requires
            self.wf(),
        ensures
            forall|i: int| 0 <= i < cs@.len() ==> interested(self.positions(), self.radii().map_values(|r: u32| r as u64), #[trigger] cs@[i], position),
            forall|c: u64| interested(self.positions(), self.radii().map_values(|r: u32| r as u64), c, position) ==> cs@.contains(c),
            forall|i: int, j: int| 0 <= i < j < cs@.len() ==> cs@[i] != cs@[j],
    {
        let ids = self.player_positions.keys();
        let mut cs: Vec<u64> = Vec::new();
        let mut i: usize = 0;
        while i < ids.len()
            invariant
                self.wf(),
                i <= ids@.len(),
                forall|j: int| 0 <= j < ids@.len() ==> self.positions().dom().contains(#[trigger] ids@[j]@),
                forall|k: u64| self.positions().dom().contains(k) ==> exists|j: int| 0 <= j < ids@.len() && ids@[j]@ == k,
                forall|a: int, b: int| 0 <= a < b < ids@.len() ==> ids@[a]@ != ids@[b]@,
                forall|a: int| 0 <= a < cs@.len() ==> interested(self.positions(), self.radii().map_values(|r: u32| r as u64), #[trigger] cs@[a], position)
                    && exists|j: int| 0 <= j < i && ids@[j]@ == cs@[a],
                forall|j: int| 0 <= j < i && interested(self.positions(), self.radii().map_values(|r: u32| r as u64), ids@[j]@, position) ==> cs@.contains(#[trigger] ids@[j]@),
                forall|a: int, b: int| 0 <= a < b < cs@.len() ==> cs@[a] != cs@[b],
            decreases ids@.len() - i,
        {
            let c = ids[i].id;
            let b = self.is_client_interested(c, position);
            proof {
                assert forall|a: int| 0 <= a < cs@.len() implies cs@[a] != c by {
                    let j = choose|j: int| 0 <= j < i && ids@[j]@ == cs@[a];
                    assert(ids@[j]@ != ids@[i as int]@);
                }
            }
            let ghost prev = cs@;
            if b {
                cs.push(c);
            }
            proof {
                assert forall|j: int| 0 <= j < i + 1 && interested(self.positions(), self.radii().map_values(|r: u32| r as u64), ids@[j]@, position)
                    implies cs@.contains(#[trigger] ids@[j]@) by {
                    if j < i {
                        assert(prev.contains(ids@[j]@));
                        let a = choose|a: int| 0 <= a < prev.len() && prev[a] == ids@[j]@;
                        assert(cs@[a] == prev[a]);
                    } else {
                        assert(cs@[cs@.len() - 1] == c);
                    }
                }
            }
            i = i + 1;
        }
        proof {
            assert forall|c: u64| interested(self.positions(), self.radii().map_values(|r: u32| r as u64), c, position) implies cs@.contains(c) by {
                let j = choose|j: int| 0 <= j < ids@.len() && ids@[j]@ == c;
                assert(cs@.contains(ids@[j]@));
            }
        }
        cs
    }
}

/// Handle of a body in the physics world: its position in the body list.
#[derive(Clone, Copy, Debug, PartialEq, Eq, Structural)]
pub struct BodyHandle {
    pub index: usize,
}

/// The physics world's dynamic bodies of type `B`.
pub struct PhysicsSystem<B> {
    bodies: Vec<B>,
    network_role: NetworkRole,
}

impl<B> PhysicsSystem<B> {
    /// The bodies, in the order they were added.
    pub closed spec fn bodies(&self) -> Seq<B> {
        self.bodies@
    }

    pub closed spec fn role_spec(&self) -> NetworkRole {
        self.network_role
    }

    pub fn new(network_role: NetworkRole) -> (p: Self)
        ensures
            p.bodies().len() == 0,
            p.role_spec() == network_role,
    {
        PhysicsSystem { bodies: Vec::new(), network_role }
    }

    /// Registers `body` and returns its handle.
    pub fn add_dynamic_body(&mut self, body: B) -> (h: BodyHandle)
        ensures
            final(self).bodies() == old(self).bodies().push(body),
            h.index == old(self).bodies().len(),
            final(self).role_spec() == old(self).role_spec(),
    {
        let index = self.bodies.len();
        self.bodies.push(body);
        BodyHandle { index }
    }

    /// The body of handle `h`, if there is one.
    pub fn body(&self, h: BodyHandle) -> (b: Option<&B>)
        ensures
            h.index < self.bodies().len() ==> b == Some(&self.bodies()[h.index as int]),
            h.index >= self.bodies().len() ==> b is None,
    {
        if h.index < self.bodies.len() {
            Some(&self.bodies[h.index])
        } else {
            None
        }
    }
}

/// A body added to a world of `before` bodies gets a handle that no earlier
/// handle has (every earlier handle is below the count, which only grows),
/// and that handle refers to the body just added while the earlier ones
/// keep their bodies.
pub proof fn lemma_new_handle_is_fresh<B>(before: Seq<B>, after: Seq<B>, body: B, h: BodyHandle, earlier: Seq<BodyHandle>)
    requires
        after == before.push(body),
        h.index == before.len(),
        forall|i: int| 0 <= i < earlier.len() ==> (#[trigger] earlier[i]).index < before.len(),
    ensures
        forall|i: int| 0 <= i < earlier.len() ==> #[trigger] earlier[i] != h,
        after[h.index as int] == body,
        forall|i: int| 0 <= i < earlier.len() ==> after[(#[trigger] earlier[i]).index as int] == before[earlier[i].index as int],
        h.index < after.len(),
{
}

/// A player in the world.
#[derive(Clone, Copy, Debug, PartialEq, Eq, Structural)]
pub struct Player {
    pub id: u64,
    pub position: Position,
}

impl View for Player {
    type V = Player;

    open spec fn view(&self) -> Player {
        *self
    }
}

/// The players of a session.
pub struct PlayerManager {
    local_player_id: u64,
    players: AssocMap<Id, Player>,
    network_role: NetworkRole,
}

impl PlayerManager {
    pub closed spec fn wf(&self) -> bool {
        self.players.wf()
    }

    /// The players by id.
    pub closed spec fn players(&self) -> Map<u64, Player> {
        self.players.map()
    }

    pub closed spec fn local_player_spec(&self) -> u64 {
        self.local_player_id
    }

    pub fn new(local_player_id: u64, network_role: NetworkRole) -> (m: Self)
        ensures
            m.wf(),
            m.players() == Map::<u64, Player>::empty(),
            m.local_player_spec() == local_player_id,
    {
        PlayerManager { local_player_id, players: AssocMap::new(), network_role }
    }

    /// Creates player `player_id` at `spawn_point`, replacing any player of
    /// that id, and returns it.
    pub fn spawn_player(&mut self, player_id: u64, spawn_point: Position) -> (p: Player)
        requires
            old(self).wf(),
        ensures
            final(self).wf(),
            p == (Player { id: player_id, position: spawn_point }),
            final(self).players() == old(self).players().insert(player_id, p),
            final(self).local_player_spec() == old(self).local_player_spec(),
    {
        let p = Player { id: player_id, position: spawn_point };
        self.players.insert(Id { id: player_id }, p);
        p
    }

    /// Player `player_id`, if present.
    pub fn get_player(&self, player_id: u64) -> (p: Option<Player>)
        requires
            self.wf(),
        ensures
            p is Some <==> self.players().dom().contains(player_id),
            p matches Some(q) ==> q == self.players()[player_id],
    {
        match self.players.get(&Id { id: player_id }) {
            Some(q) => Some(*q),
            None => None,
        }
    }
}

/// Combat rules of this instance.
pub struct CombatSystem {
    pub network_role: NetworkRole,
}

impl CombatSystem {
    pub fn new(network_role: NetworkRole) -> (c: Self)
        ensures
            c.network_role == network_role,
    {
        CombatSystem { network_role }
    }

    /// A hit is legitimate when the target stands within the weapon's range
    /// of the attacker.
    pub fn validate_hit(&self, attacker_position: Position, target_position: Position, weapon_range: u32) -> (ok: bool)
        ensures
            ok == (dist_sq(attacker_position, target_position) <= weapon_range as int * weapon_range as int),
    {
        let d = distance_squared(attacker_position, target_position);
        proof {
            let rv = weapon_range as int;
            assert(rv * rv <= 0xffff_ffff * 0xffff_ffff) by (nonlinear_arith)
                requires
                    0 <= rv <= 0xffff_ffff,
            ;
        }
        d <= (weapon_range as u128) * (weapon_range as u128)
    }
}

} // verus!
