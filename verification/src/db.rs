//! What is stored on this device, as tables. The tables are plain values; writing them to
//! disk and reading them back is left to their owner.
use vstd::prelude::*;
use vstd::string::*;

use crate::auth::{row_of, AccountRow, NewAccount};
use crate::dates::{date_of_time, in_calendar};
use crate::keymap::opt_text;
use crate::model::{
    copy_texts, Epoch, ListId, Member, MemberId, Priority, Role, TodoItem, TodoView,
    UpdatePayload,
};
use crate::order::{is_text_before, lemma_text_order, shown, sort, sorted, text_before, Ordered};
use crate::table::{find, found, remove, upsert, upserted, without, Row};
use crate::text::{same, texts};

verus! {

// ── Reading columns ─────────────────────────────────────────────────────────

/// The role that a text stands for; anything but `owner` is a member.
pub open spec fn role_named(s: Seq<char>) -> Role {
    if s == "owner"@ {
        Role::Owner
    } else {
        Role::Member
    }
}

/// The role that a text stands for.
pub fn parse_role(s: &str) -> (r: Role)
    ensures
        r == role_named(s@),
{
    if same(s, "owner") {
        Role::Owner
    } else {
        Role::Member
    }
}

/// The text of a role.
pub fn role_text(role: Role) -> (r: &'static str)
    ensures
        role_named(r@) == role,
        r@ == (match role {
            Role::Owner => "owner"@,
            Role::Member => "member"@,
        }),
{
    proof {
        reveal_strlit("owner");
        reveal_strlit("member");
        assert("owner"@.len() != "member"@.len());
    }
    match role {
        Role::Owner => "owner",
        Role::Member => "member",
    }
}

/// The 16 bytes of a column.
pub fn to_16(v: &Vec<u8>) -> (r: [u8; 16])
    requires
        v@.len() == 16,
    ensures
        r@ == v@,
{
    let mut a: [u8; 16] = [0u8; 16];
    let mut i: usize = 0;
    while i < 16
        invariant
            i <= 16,
            v@.len() == 16,
            forall|j: int| 0 <= j < i ==> a@[j] == v@[j],
        decreases 16 - i,
    {
        a[i] = v[i];
        i = i + 1;
    }
    proof {
        assert(a@ =~= v@);
    }
    a
}

/// The 32 bytes of a column.
pub fn to_32(v: &Vec<u8>) -> (r: [u8; 32])
    requires
        v@.len() == 32,
    ensures
        r@ == v@,
{
    let mut a: [u8; 32] = [0u8; 32];
    let mut i: usize = 0;
    while i < 32
        invariant
            i <= 32,
            v@.len() == 32,
            forall|j: int| 0 <= j < i ==> a@[j] == v@[j],
        decreases 32 - i,
    {
        a[i] = v[i];
        i = i + 1;
    }
    proof {
        assert(a@ =~= v@);
    }
    a
}

/// The list's number in a column.
pub fn list_id_from(bytes: &Vec<u8>) -> (r: ListId)
    requires
        bytes@.len() == 16,
    ensures
        r.0@ == bytes@,
{
    ListId(to_16(bytes))
}

/// The device's cache out of its columns: both must be there, and the number must have
/// 16 bytes.
pub fn device_cache(id: &Option<Vec<u8>>, blob: &Option<Vec<u8>>) -> (r: Option<
    ([u8; 16], Vec<u8>),
>)
    ensures
        match (*id, *blob) {
            (Some(i), Some(b)) => if i@.len() == 16 {
                r matches Some(p) && p.0@ == i@ && p.1@ == b@
            } else {
                r is None
            },
            _ => r is None,
        },
{
    match (id, blob) {
        (Some(i), Some(b)) => {
            if i.len() == 16 {
                Some((to_16(i), b.clone()))
            } else {
                None
            }
        },
        _ => None,
    }
}

// ── Rows ────────────────────────────────────────────────────────────────────

/// A list that this device knows.
#[derive(Debug)]
pub struct ListRow {
    pub list_id: ListId,
    pub name: String,
    pub role: Role,
    pub current_epoch: Epoch,
}

/// What a list's row holds.
#[verifier::ext_equal]
pub struct ListRowView {
    pub list_id: ListId,
    pub name: Seq<char>,
    pub role: Role,
    pub current_epoch: Epoch,
}

impl View for ListRow {
    type V = ListRowView;

    open spec fn view(&self) -> ListRowView {
        ListRowView {
            list_id: self.list_id,
            name: self.name@,
            role: self.role,
            current_epoch: self.current_epoch,
        }
    }
}

impl ListRow {
    /// A copy of the row.
    pub fn copy(&self) -> (r: ListRow)
        ensures
            r@ == self@,
    {
        ListRow {
            list_id: self.list_id,
            name: self.name.clone(),
            role: self.role,
            current_epoch: self.current_epoch,
        }
    }
}

/// A sealed data key of a list under an epoch.
#[derive(Debug)]
pub struct KeySlotRow {
    pub list_id: ListId,
    pub epoch: Epoch,
    pub wrapped_dek: Vec<u8>,
}

/// A list's document.
#[derive(Debug)]
pub struct DocumentRow {
    pub list_id: ListId,
    pub snapshot: Vec<u8>,
}

/// A member of a list.
#[derive(Clone, Copy, Debug)]
pub struct MemberRow {
    pub list_id: ListId,
    pub member: Member,
}

/// An update that waits for its upload.
#[derive(Debug)]
pub struct OutboundRow {
    pub payload: UpdatePayload,
    /// Whether it is being uploaded.
    pub taken: bool,
}

/// A todo as it is stored for lists and sorting: without its subtasks.
#[derive(Debug)]
pub struct ItemRow {
    pub list_id: ListId,
    pub item_id: String,
    pub text: String,
    pub done: i64,
    pub order_key: Option<String>,
    pub due_at: Option<i64>,
    pub priority: i64,
    pub notes: String,
    pub tags: Vec<String>,
}

/// What a todo's row holds.
#[verifier::ext_equal]
pub struct ItemRowView {
    pub list_id: ListId,
    pub item_id: Seq<char>,
    pub text: Seq<char>,
    pub done: i64,
    pub order_key: Option<Seq<char>>,
    pub due_at: Option<i64>,
    pub priority: i64,
    pub notes: Seq<char>,
    pub tags: Seq<Seq<char>>,
}

impl View for ItemRow {
    type V = ItemRowView;

    open spec fn view(&self) -> ItemRowView {
        ItemRowView {
            list_id: self.list_id,
            item_id: self.item_id@,
            text: self.text@,
            done: self.done,
            order_key: opt_text(self.order_key),
            due_at: self.due_at,
            priority: self.priority,
            notes: self.notes@,
            tags: texts(self.tags@),
        }
    }
}

impl ItemRow {
    /// A copy of the row.
    pub fn copy(&self) -> (r: ItemRow)
        ensures
            r@ == self@,
    {
        ItemRow {
            list_id: self.list_id,
            item_id: self.item_id.clone(),
            text: self.text.clone(),
            done: self.done,
            order_key: crate::action::copy_opt(&self.order_key),
            due_at: self.due_at,
            priority: self.priority,
            notes: self.notes.clone(),
            tags: copy_texts(&self.tags),
        }
    }
}

/// The todo that a row stores. A due time beyond the calendar counts as none.
pub open spec fn row_item(r: ItemRowView) -> TodoView {
    TodoView {
        id: r.item_id,
        title: r.text,
        notes: r.notes,
        due: match r.due_at {
            Some(s) => if in_calendar(s) {
                Some(s)
            } else {
                None
            },
            None => None,
        },
        priority: Priority::of_level(r.priority as int),
        done: r.done != 0,
        tags: r.tags,
        subtasks: Seq::empty(),
        order_key: match r.order_key {
            Some(k) => k,
            None => Seq::empty(),
        },
    }
}

/// The row that stores a todo of a list.
pub open spec fn item_row(list_id: ListId, t: TodoView) -> ItemRowView {
    ItemRowView {
        list_id,
        item_id: t.id,
        text: t.title,
        done: if t.done {
            1i64
        } else {
            0i64
        },
        order_key: Some(t.order_key),
        due_at: t.due,
        priority: t.priority.level() as i64,
        notes: t.notes,
        tags: t.tags,
    }
}

/// The todo that a row stores.
pub fn row_to_item(r: &ItemRow) -> (t: TodoItem)
    ensures
        t@ == row_item(r@),
{
    let due: Option<i64> = match date_of_time(r.due_at) {
        Some(_) => r.due_at,
        None => None,
    };
    let order_key: String = match &r.order_key {
        Some(k) => k.clone(),
        None => String::new(),
    };
    let t = TodoItem {
        id: r.item_id.clone(),
        title: r.text.clone(),
        notes: r.notes.clone(),
        due,
        priority: Priority::from_rank(r.priority),
        done: r.done != 0,
        tags: copy_texts(&r.tags),
        subtasks: Vec::new(),
        order_key,
    };
    proof {
        assert(t@.subtasks =~= Seq::empty());
        assert(t@.order_key =~= row_item(r@).order_key);
        assert(t@ =~= row_item(r@));
    }
    t
}

/// The row that stores a todo of a list.
pub fn item_to_row(list_id: ListId, t: &TodoItem) -> (r: ItemRow)
    ensures
        r@ == item_row(list_id, t@),
{
    let done: i64 = if t.done {
        1
    } else {
        0
    };
    ItemRow {
        list_id,
        item_id: t.id.clone(),
        text: t.title.clone(),
        done,
        order_key: Some(t.order_key.clone()),
        due_at: t.due,
        priority: t.priority.rank(),
        notes: t.notes.clone(),
        tags: copy_texts(&t.tags),
    }
}

/// A todo that was stored reads back as it was, but for its subtasks, and for a due time
/// beyond the calendar.
pub proof fn law_stored_todo_reads_back(list_id: ListId, t: TodoView)
    requires
        t.due matches Some(s) ==> in_calendar(s),
    ensures
        row_item(item_row(list_id, t)) == (TodoView { subtasks: Seq::empty(), ..t }),
{
    crate::model::law_priority_rank_round_trip(t.priority);
}

// ── Keys ────────────────────────────────────────────────────────────────────

impl Row<ListId> for ListRow {
    open spec fn has_key(self, key: ListId) -> bool {
        self.list_id == key
    }

    fn is_key(&self, key: &ListId) -> (r: bool) {
        self.list_id == *key
    }
}

impl Row<ListId> for KeySlotRow {
    open spec fn has_key(self, key: ListId) -> bool {
        self.list_id == key
    }

    fn is_key(&self, key: &ListId) -> (r: bool) {
        self.list_id == *key
    }
}

impl Row<(ListId, Epoch)> for KeySlotRow {
    open spec fn has_key(self, key: (ListId, Epoch)) -> bool {
        self.list_id == key.0 && self.epoch == key.1
    }

    fn is_key(&self, key: &(ListId, Epoch)) -> (r: bool) {
        self.list_id == key.0 && self.epoch == key.1
    }
}

impl Row<ListId> for DocumentRow {
    open spec fn has_key(self, key: ListId) -> bool {
        self.list_id == key
    }

    fn is_key(&self, key: &ListId) -> (r: bool) {
        self.list_id == *key
    }
}

impl Row<ListId> for MemberRow {
    open spec fn has_key(self, key: ListId) -> bool {
        self.list_id == key
    }

    fn is_key(&self, key: &ListId) -> (r: bool) {
        self.list_id == *key
    }
}

impl Row<(ListId, MemberId)> for MemberRow {
    open spec fn has_key(self, key: (ListId, MemberId)) -> bool {
        self.list_id == key.0 && self.member.id == key.1
    }

    fn is_key(&self, key: &(ListId, MemberId)) -> (r: bool) {
        self.list_id == key.0 && self.member.id == key.1
    }
}

impl Row<ListId> for OutboundRow {
    open spec fn has_key(self, key: ListId) -> bool {
        self.payload.list_id == key
    }

    fn is_key(&self, key: &ListId) -> (r: bool) {
        self.payload.list_id == *key
    }
}

/// The signature of an update, by which it is found.
#[derive(Clone, Copy, Debug)]
pub struct Signature(pub [u8; 64]);

fn same_signature(a: &[u8; 64], b: &[u8; 64]) -> (r: bool)
    ensures
        r == (a@ == b@),
{
    let mut i: usize = 0;
    while i < 64
        invariant
            i <= 64,
            forall|j: int| 0 <= j < i ==> a@[j] == b@[j],
        decreases 64 - i,
    {
        if a[i] != b[i] {
            return false;
        }
        i = i + 1;
    }
    proof {
        assert(a@ =~= b@);
    }
    true
}

impl Row<Signature> for OutboundRow {
    open spec fn has_key(self, key: Signature) -> bool {
        self.payload.signature@ == key.0@
    }

    fn is_key(&self, key: &Signature) -> (r: bool) {
        same_signature(&self.payload.signature, &key.0)
    }
}

impl Row<ListId> for ItemRow {
    open spec fn has_key(self, key: ListId) -> bool {
        self.list_id == key
    }

    fn is_key(&self, key: &ListId) -> (r: bool) {
        self.list_id == *key
    }
}

// ── Orders ──────────────────────────────────────────────────────────────────

/// The order by name.
#[derive(Clone, Copy, Debug)]
pub struct ByName;

impl Ordered<ByName> for ListRow {
    type Shown = ListRowView;

    open spec fn shown(self) -> ListRowView {
        self@
    }

    open spec fn before(a: ListRowView, b: ListRowView, order: ByName) -> bool {
        text_before(a.name, b.name)
    }

    proof fn weak_order(a: ListRowView, b: ListRowView, c: ListRowView, order: ByName) {
        lemma_text_order(a.name, b.name, c.name);
    }

    fn is_before(&self, other: &ListRow, order: &ByName) -> (r: bool) {
        is_text_before(self.name.as_str(), other.name.as_str())
    }
}

/// The order of a stored list: by the key for it, rows without one first.
#[derive(Clone, Copy, Debug)]
pub struct ByOrderKey;

impl Ordered<ByOrderKey> for ItemRow {
    type Shown = ItemRowView;

    open spec fn shown(self) -> ItemRowView {
        self@
    }

    open spec fn before(a: ItemRowView, b: ItemRowView, order: ByOrderKey) -> bool {
        match (a.order_key, b.order_key) {
            (Some(x), Some(y)) => text_before(x, y),
            (None, Some(_)) => true,
            _ => false,
        }
    }

    proof fn weak_order(a: ItemRowView, b: ItemRowView, c: ItemRowView, order: ByOrderKey) {
        if a.order_key is Some && b.order_key is Some && c.order_key is Some {
            lemma_text_order(a.order_key->0, b.order_key->0, c.order_key->0);
        } else if a.order_key is Some && b.order_key is Some {
            lemma_text_order(a.order_key->0, b.order_key->0, a.order_key->0);
        }
    }

    fn is_before(&self, other: &ItemRow, order: &ByOrderKey) -> (r: bool) {
        match (&self.order_key, &other.order_key) {
            (Some(x), Some(y)) => is_text_before(x.as_str(), y.as_str()),
            (None, Some(_)) => true,
            _ => false,
        }
    }
}

/// The order by due time, rows without one first.
#[derive(Clone, Copy, Debug)]
pub struct ByDueTime;

impl Ordered<ByDueTime> for ItemRow {
    type Shown = ItemRowView;

    open spec fn shown(self) -> ItemRowView {
        self@
    }

    open spec fn before(a: ItemRowView, b: ItemRowView, order: ByDueTime) -> bool {
        match (a.due_at, b.due_at) {
            (Some(x), Some(y)) => x < y,
            (None, Some(_)) => true,
            _ => false,
        }
    }

    proof fn weak_order(a: ItemRowView, b: ItemRowView, c: ItemRowView, order: ByDueTime) {
    }

    fn is_before(&self, other: &ItemRow, order: &ByDueTime) -> (r: bool) {
        match (self.due_at, other.due_at) {
            (Some(x), Some(y)) => x < y,
            (None, Some(_)) => true,
            _ => false,
        }
    }
}

// ── The tables ──────────────────────────────────────────────────────────────

/// What is stored on this device.
#[derive(Debug)]
pub struct Db {
    /// The account of this device, once there is one.
    pub account: Option<AccountRow>,
    /// The number under which the server knows this device.
    pub device_id: Option<Vec<u8>>,
    /// The identity, sealed to the device's own key.
    pub device_wrapped_keys: Option<Vec<u8>>,
    pub lists: Vec<ListRow>,
    pub documents: Vec<DocumentRow>,
    pub items: Vec<ItemRow>,
    pub members: Vec<MemberRow>,
    pub key_slots: Vec<KeySlotRow>,
    pub outbound: Vec<OutboundRow>,
}

/// What lists' rows hold.
pub open spec fn list_rows(v: Seq<ListRow>) -> Seq<ListRowView> {
    v.map_values(|r: ListRow| r@)
}

/// What todos' rows hold.
pub open spec fn item_rows(v: Seq<ItemRow>) -> Seq<ItemRowView> {
    v.map_values(|r: ItemRow| r@)
}

/// The rows of a list, in their order.
pub open spec fn rows_of_list(s: Seq<ItemRowView>, list_id: ListId) -> Seq<ItemRowView>
    decreases s.len(),
{
    if s.len() == 0 {
        s
    } else if s.last().list_id == list_id {
        rows_of_list(s.drop_last(), list_id).push(s.last())
    } else {
        rows_of_list(s.drop_last(), list_id)
    }
}

/// The members of a list, in the order of their rows.
pub open spec fn members_of(s: Seq<MemberRow>, list_id: ListId) -> Seq<Member>
    decreases s.len(),
{
    if s.len() == 0 {
        Seq::empty()
    } else if s.last().list_id == list_id {
        members_of(s.drop_last(), list_id).push(s.last().member)
    } else {
        members_of(s.drop_last(), list_id)
    }
}

/// The number of updates of a list that wait.
pub open spec fn waiting(s: Seq<OutboundRow>, list_id: ListId) -> nat
    decreases s.len(),
{
    if s.len() == 0 {
        0
    } else if s.last().payload.list_id == list_id {
        waiting(s.drop_last(), list_id) + 1
    } else {
        waiting(s.drop_last(), list_id)
    }
}

/// The todos of a list as they are stored, in the order of their keys.
pub open spec fn stored_items(s: Seq<ItemRowView>, list_id: ListId) -> Seq<TodoView> {
    sorted::<ByOrderKey, ItemRow>(rows_of_list(s, list_id), ByOrderKey).map_values(
        |r: ItemRowView| row_item(r),
    )
}

/// The todos of all lists as they are stored, in the order of their due times.
pub open spec fn all_stored(s: Seq<ItemRowView>) -> Seq<(ListId, TodoView)> {
    sorted::<ByDueTime, ItemRow>(s, ByDueTime).map_values(
        |r: ItemRowView| (r.list_id, row_item(r)),
    )
}

/// The current epoch of a list.
pub open spec fn epoch_of(s: Seq<ListRow>, list_id: ListId) -> Option<Epoch> {
    match found(s, list_id) {
        Some(i) => Some(s[i].current_epoch),
        None => None,
    }
}

/// Why something was not stored.
#[derive(Clone, Copy, Debug, PartialEq, Eq, Structural)]
pub enum DbError {
    /// The list that it belongs to is not stored.
    NoList,
}

impl Db {
    /// Whether a list is stored.
    pub open spec fn holds_list(self, list_id: ListId) -> bool {
        found(self.lists@, list_id) is Some
    }

    /// Whether a row was stored if and only if its list is; else nothing changes.
    pub open spec fn owned(self, after: Db, r: Result<(), DbError>, list_id: ListId) -> bool {
        if self.holds_list(list_id) {
            r is Ok
        } else {
            r == Err::<(), DbError>(DbError::NoList) && after == self
        }
    }

    /// Nothing is stored yet.
    pub fn new() -> (r: Db)
        ensures
            r.account is None,
            r.device_id is None,
            r.device_wrapped_keys is None,
            r.lists@.len() == 0,
            r.documents@.len() == 0,
            r.items@.len() == 0,
            r.members@.len() == 0,
            r.key_slots@.len() == 0,
            r.outbound@.len() == 0,
    {
        Db {
            account: None,
            device_id: None,
            device_wrapped_keys: None,
            lists: Vec::new(),
            documents: Vec::new(),
            items: Vec::new(),
            members: Vec::new(),
            key_slots: Vec::new(),
            outbound: Vec::new(),
        }
    }

    /// Stores the account of this device. What was stored for the device's own key
    /// belonged to the account before, and goes with it.
    pub fn save_account(&mut self, account: NewAccount)
        ensures
            *final(self) == (Db {
                account: Some(row_of(account)),
                device_id: None,
                device_wrapped_keys: None,
                ..*old(self)
            }),
    {
        self.account = Some(
            AccountRow {
                member_id: account.member_id,
                username: account.username,
                identity_pub: account.identity_pub,
                signing_pub: account.signing_pub,
                wrapped_secret_keys: account.wrapped_secret_keys,
                kdf_salt: account.kdf_salt,
                kdf_mem_kib: account.kdf_mem_kib,
                kdf_iters: account.kdf_iters,
                kdf_parallelism: account.kdf_parallelism,
            },
        );
        self.device_id = None;
        self.device_wrapped_keys = None;
    }

    /// The account of this device, if there is one.
    pub fn load_account(&self) -> (r: Option<&AccountRow>)
        ensures
            (match r {
                Some(a) => Some(*a),
                None => None,
            }) == self.account,
    {
        match &self.account {
            Some(a) => Some(a),
            None => None,
        }
    }

    /// Stores the identity as it is sealed to the device's own key; without an account
    /// there is nothing to store it with.
    pub fn save_device_cache(&mut self, device_id: &[u8; 16], blob: Vec<u8>)
        ensures
            *final(self) == (if old(self).account is Some {
                Db {
                    device_id: final(self).device_id,
                    device_wrapped_keys: Some(blob),
                    ..*old(self)
                }
            } else {
                *old(self)
            }),
            old(self).account is Some ==> (final(self).device_id matches Some(id) && id@
                == device_id@),
    {
        if self.account.is_some() {
            let mut id: Vec<u8> = Vec::new();
            let mut i: usize = 0;
            while i < 16
                invariant
                    i <= 16,
                    id@ == device_id@.take(i as int),
                decreases 16 - i,
            {
                id.push(device_id[i]);
                proof {
                    assert(device_id@.take(i + 1) =~= device_id@.take(i as int).push(
                        device_id@[i as int],
                    ));
                }
                i = i + 1;
            }
            proof {
                assert(device_id@.take(16) =~= device_id@);
            }
            self.device_id = Some(id);
            self.device_wrapped_keys = Some(blob);
        }
    }

    /// The identity as it is sealed to the device's own key, if it was stored.
    pub fn load_device_cache(&self) -> (r: Option<([u8; 16], Vec<u8>)>)
        ensures
            match (self.account, self.device_id, self.device_wrapped_keys) {
                (Some(_), Some(i), Some(b)) => if i@.len() == 16 {
                    r matches Some(p) && p.0@ == i@ && p.1@ == b@
                } else {
                    r is None
                },
                _ => r is None,
            },
    {
        if self.account.is_none() {
            return None;
        }
        device_cache(&self.device_id, &self.device_wrapped_keys)
    }

    /// Forgets what was stored for the device's own key.
    pub fn clear_device_cache(&mut self)
        ensures
            *final(self) == (if old(self).account is Some {
                Db { device_id: None, device_wrapped_keys: None, ..*old(self) }
            } else {
                *old(self)
            }),
    {
        if self.account.is_some() {
            self.device_id = None;
            self.device_wrapped_keys = None;
        }
    }

    /// Stores a list, in the place of what was stored of it.
    pub fn upsert_list(&mut self, list_id: ListId, role: Role, current_epoch: Epoch, name: String)
        ensures
            *final(self) == (Db { lists: final(self).lists, ..*old(self) }),
            final(self).lists@ == upserted(
                old(self).lists@,
                list_id,
                ListRow { list_id, name, role, current_epoch },
            ),
    {
        upsert(&mut self.lists, &list_id, ListRow { list_id, name, role, current_epoch });
    }

    /// The lists, by name.
    pub fn list_lists(&self) -> (r: Vec<ListRow>)
        ensures
            list_rows(r@) == sorted::<ByName, ListRow>(list_rows(self.lists@), ByName),
    {
        let n: usize = self.lists.len();
        let mut rows: Vec<ListRow> = Vec::new();
        let mut i: usize = 0;
        while i < n
            invariant
                i <= n,
                n == self.lists@.len(),
                rows@.len() == i,
                forall|j: int| 0 <= j < i ==> (#[trigger] rows@[j])@ == self.lists@[j]@,
            decreases n - i,
        {
            rows.push(self.lists[i].copy());
            i = i + 1;
        }
        proof {
            assert(shown::<ByName, ListRow>(rows@) =~= list_rows(self.lists@));
        }
        sort(&mut rows, &ByName);
        proof {
            assert(shown::<ByName, ListRow>(rows@) =~= list_rows(rows@));
        }
        rows
    }

    /// The epoch under which a list's updates are written.
    pub fn list_epoch(&self, list_id: ListId) -> (r: Option<Epoch>)
        ensures
            r == epoch_of(self.lists@, list_id),
    {
        match find(&self.lists, &list_id) {
            Some(i) => Some(self.lists[i].current_epoch),
            None => None,
        }
    }

    /// Sets the epoch under which a list's updates are written.
    pub fn set_epoch(&mut self, list_id: ListId, epoch: Epoch)
        ensures
            *final(self) == (Db { lists: final(self).lists, ..*old(self) }),
            final(self).lists@ == (match found(old(self).lists@, list_id) {
                Some(i) => old(self).lists@.update(
                    i,
                    ListRow { current_epoch: epoch, ..old(self).lists@[i] },
                ),
                None => old(self).lists@,
            }),
    {
        if let Some(i) = find(&self.lists, &list_id) {
            self.lists[i].current_epoch = epoch;
        }
    }

    /// Gives a list another name.
    pub fn rename_list(&mut self, list_id: ListId, name: String)
        ensures
            *final(self) == (Db { lists: final(self).lists, ..*old(self) }),
            final(self).lists@ == (match found(old(self).lists@, list_id) {
                Some(i) => old(self).lists@.update(i, ListRow { name, ..old(self).lists@[i] }),
                None => old(self).lists@,
            }),
    {
        if let Some(i) = find(&self.lists, &list_id) {
            self.lists[i].name = name;
        }
    }

    /// Removes a list with everything that belongs to it.
    pub fn delete_list(&mut self, list_id: ListId)
        ensures
            final(self).account == old(self).account,
            final(self).device_id == old(self).device_id,
            final(self).device_wrapped_keys == old(self).device_wrapped_keys,
            final(self).lists@ == without(old(self).lists@, list_id),
            final(self).documents@ == without(old(self).documents@, list_id),
            final(self).items@ == without(old(self).items@, list_id),
            final(self).members@ == without(old(self).members@, list_id),
            final(self).key_slots@ == without(old(self).key_slots@, list_id),
            final(self).outbound@ == without(old(self).outbound@, list_id),
    {
        remove(&mut self.lists, &list_id);
        remove(&mut self.documents, &list_id);
        remove(&mut self.items, &list_id);
        remove(&mut self.members, &list_id);
        remove(&mut self.key_slots, &list_id);
        remove(&mut self.outbound, &list_id);
    }

    /// A list's document, if it was stored.
    pub fn load_document(&self, list_id: ListId) -> (r: Option<&Vec<u8>>)
        ensures
            match found(self.documents@, list_id) {
                Some(i) => r matches Some(b) && *b == self.documents@[i].snapshot,
                None => r is None,
            },
    {
        match find(&self.documents, &list_id) {
            Some(i) => Some(&self.documents[i].snapshot),
            None => None,
        }
    }

    /// Whether a list is stored.
    fn has_list(&self, list_id: ListId) -> (r: bool)
        ensures
            r == self.holds_list(list_id),
    {
        find(&self.lists, &list_id).is_some()
    }

    /// Stores a list's document. The list must be stored.
    pub fn save_document(&mut self, list_id: ListId, snapshot: Vec<u8>) -> (r: Result<(), DbError>)
        ensures
            old(self).owned(*final(self), r, list_id),
            *final(self) == (Db { documents: final(self).documents, ..*old(self) }),
            r is Ok ==> final(self).documents@ == upserted(
                old(self).documents@,
                list_id,
                DocumentRow { list_id, snapshot },
            ),
    {
        if !self.has_list(list_id) {
            return Err(DbError::NoList);
        }
        upsert(&mut self.documents, &list_id, DocumentRow { list_id, snapshot });
        Ok(())
    }

    /// Stores the todos of a list, in the place of all that were stored of it. Where there
    /// are any, the list must be stored.
    pub fn replace_todo_items(&mut self, list_id: ListId, items: &Vec<TodoItem>) -> (r: Result<
        (),
        DbError,
    >)
        ensures
            items@.len() > 0 ==> old(self).owned(*final(self), r, list_id),
            items@.len() == 0 ==> r is Ok,
            *final(self) == (Db { items: final(self).items, ..*old(self) }),
            r is Ok ==> item_rows(final(self).items@) == item_rows(without(old(self).items@, list_id))
                + items@.map_values(|t: TodoItem| item_row(list_id, t@)),
    {
        if items.len() > 0 && !self.has_list(list_id) {
            return Err(DbError::NoList);
        }
        let ghost kept = without(self.items@, list_id);
        remove(&mut self.items, &list_id);
        let n: usize = items.len();
        let mut i: usize = 0;
        while i < n
            invariant
                i <= n,
                n == items@.len(),
                *self == (Db { items: self.items, ..*old(self) }),
                self.items@.len() == kept.len() + i,
                forall|j: int| 0 <= j < kept.len() ==> #[trigger] self.items@[j] == kept[j],
                forall|j: int|
                    0 <= j < i ==> self.items@[kept.len() + j]@ == item_row(
                        list_id,
                        (#[trigger] items@[j])@,
                    ),
            decreases n - i,
        {
            self.items.push(item_to_row(list_id, &items[i]));
            i = i + 1;
        }
        proof {
            let want = item_rows(kept) + items@.map_values(|t: TodoItem| item_row(list_id, t@));
            assert forall|j: int| 0 <= j < want.len() implies item_rows(self.items@)[j]
                == want[j] by {
                if j >= kept.len() {
                    let x = items@[j - kept.len()];
                    assert(self.items@[kept.len() + (j - kept.len())]@ == item_row(list_id, x@));
                }
            }
            assert(item_rows(self.items@) =~= want);
        }
        Ok(())
    }

    /// The todos of a list as they are stored.
    pub fn load_todo_items(&self, list_id: ListId) -> (r: Vec<TodoItem>)
        ensures
            crate::doc_value::todo_views(r@) == stored_items(item_rows(self.items@), list_id),
    {
        let ghost all = item_rows(self.items@);
        let n: usize = self.items.len();
        let mut rows: Vec<ItemRow> = Vec::new();
        let mut i: usize = 0;
        proof {
            assert(all.take(0) =~= Seq::empty());
            assert(item_rows(rows@) =~= Seq::empty());
        }
        while i < n
            invariant
                i <= n,
                n == self.items@.len(),
                all == item_rows(self.items@),
                item_rows(rows@) == rows_of_list(all.take(i as int), list_id),
            decreases n - i,
        {
            proof {
                assert(all.take(i + 1).drop_last() =~= all.take(i as int));
                assert(all.take(i + 1).last() == self.items@[i as int]@);
            }
            if self.items[i].list_id == list_id {
                let ghost before = rows@;
                let row = self.items[i].copy();
                let ghost x = row@;
                rows.push(row);
                proof {
                    assert(item_rows(rows@) =~= item_rows(before).push(x));
                }
            }
            i = i + 1;
        }
        proof {
            assert(all.take(n as int) =~= all);
            assert(shown::<ByOrderKey, ItemRow>(rows@) =~= item_rows(rows@));
        }
        sort(&mut rows, &ByOrderKey);
        proof {
            assert(shown::<ByOrderKey, ItemRow>(rows@) =~= item_rows(rows@));
        }
        let mut out: Vec<TodoItem> = Vec::new();
        let m: usize = rows.len();
        let mut k: usize = 0;
        while k < m
            invariant
                k <= m,
                m == rows@.len(),
                out@.len() == k,
                forall|j: int| 0 <= j < k ==> (#[trigger] out@[j])@ == row_item(rows@[j]@),
            decreases m - k,
        {
            out.push(row_to_item(&rows[k]));
            k = k + 1;
        }
        proof {
            assert(crate::doc_value::todo_views(out@) =~= stored_items(all, list_id));
        }
        out
    }

    /// The todos of all lists as they are stored, each with its list.
    pub fn load_all_todo_items(&self) -> (r: Vec<(ListId, TodoItem)>)
        ensures
            crate::view::item_views(r@) == all_stored(item_rows(self.items@)),
    {
        let n: usize = self.items.len();
        let mut rows: Vec<ItemRow> = Vec::new();
        let mut i: usize = 0;
        while i < n
            invariant
                i <= n,
                n == self.items@.len(),
                rows@.len() == i,
                forall|j: int| 0 <= j < i ==> (#[trigger] rows@[j])@ == self.items@[j]@,
            decreases n - i,
        {
            rows.push(self.items[i].copy());
            i = i + 1;
        }
        proof {
            assert(shown::<ByDueTime, ItemRow>(rows@) =~= item_rows(self.items@));
        }
        sort(&mut rows, &ByDueTime);
        proof {
            assert(shown::<ByDueTime, ItemRow>(rows@) =~= item_rows(rows@));
        }
        let mut out: Vec<(ListId, TodoItem)> = Vec::new();
        let m: usize = rows.len();
        let mut k: usize = 0;
        while k < m
            invariant
                k <= m,
                m == rows@.len(),
                out@.len() == k,
                forall|j: int|
                    0 <= j < k ==> (#[trigger] out@[j]).0 == rows@[j].list_id && out@[j].1@
                        == row_item(rows@[j]@),
            decreases m - k,
        {
            out.push((rows[k].list_id, row_to_item(&rows[k])));
            k = k + 1;
        }
        proof {
            assert(crate::view::item_views(out@) =~= all_stored(item_rows(self.items@)));
        }
        out
    }

    /// The members of a list.
    pub fn list_members(&self, list_id: ListId) -> (r: Vec<Member>)
        ensures
            r@ == members_of(self.members@, list_id),
    {
        let mut out: Vec<Member> = Vec::new();
        let n: usize = self.members.len();
        let mut i: usize = 0;
        proof {
            assert(self.members@.take(0) =~= Seq::empty());
        }
        while i < n
            invariant
                i <= n,
                n == self.members@.len(),
                out@ == members_of(self.members@.take(i as int), list_id),
            decreases n - i,
        {
            proof {
                assert(self.members@.take(i + 1).drop_last() =~= self.members@.take(i as int));
                assert(self.members@.take(i + 1).last() == self.members@[i as int]);
            }
            if self.members[i].list_id == list_id {
                out.push(self.members[i].member);
            }
            i = i + 1;
        }
        proof {
            assert(self.members@.take(n as int) =~= self.members@);
        }
        out
    }

    /// Stores a member of a list, in the place of what was stored of them. The list must be
    /// stored.
    pub fn add_member_row(&mut self, list_id: ListId, member: Member) -> (r: Result<(), DbError>)
        ensures
            old(self).owned(*final(self), r, list_id),
            *final(self) == (Db { members: final(self).members, ..*old(self) }),
            r is Ok ==> final(self).members@ == upserted(
                old(self).members@,
                (list_id, member.id),
                MemberRow { list_id, member },
            ),
    {
        if !self.has_list(list_id) {
            return Err(DbError::NoList);
        }
        upsert(&mut self.members, &(list_id, member.id), MemberRow { list_id, member });
        Ok(())
    }

    /// Removes a member of a list.
    pub fn remove_member_row(&mut self, list_id: ListId, member_id: MemberId)
        ensures
            *final(self) == (Db { members: final(self).members, ..*old(self) }),
            final(self).members@ == without(old(self).members@, (list_id, member_id)),
    {
        remove(&mut self.members, &(list_id, member_id));
    }

    /// Stores a sealed data key, in the place of what was stored under its epoch. The list
    /// must be stored.
    pub fn save_key_slot(&mut self, list_id: ListId, epoch: Epoch, wrapped_dek: Vec<u8>) -> (r:
        Result<(), DbError>)
        ensures
            old(self).owned(*final(self), r, list_id),
            *final(self) == (Db { key_slots: final(self).key_slots, ..*old(self) }),
            r is Ok ==> final(self).key_slots@ == upserted(
                old(self).key_slots@,
                (list_id, epoch),
                KeySlotRow { list_id, epoch, wrapped_dek },
            ),
    {
        if !self.has_list(list_id) {
            return Err(DbError::NoList);
        }
        upsert(&mut self.key_slots, &(list_id, epoch), KeySlotRow { list_id, epoch, wrapped_dek });
        Ok(())
    }

    /// The sealed data keys of all lists.
    pub fn load_key_slots(&self) -> (r: &Vec<KeySlotRow>)
        ensures
            *r == self.key_slots,
    {
        &self.key_slots
    }

    /// Queues an update for its upload. One with the same signature is queued once; else the
    /// list must be stored.
    pub fn enqueue_outbound(&mut self, payload: UpdatePayload) -> (r: Result<(), DbError>)
        ensures
            match found(old(self).outbound@, Signature(payload.signature)) {
                Some(_) => r is Ok,
                None => old(self).owned(*final(self), r, payload.list_id),
            },
            *final(self) == (Db { outbound: final(self).outbound, ..*old(self) }),
            r is Ok ==> final(self).outbound@ == (match found(
                old(self).outbound@,
                Signature(payload.signature),
            ) {
                Some(_) => old(self).outbound@,
                None => old(self).outbound@.push(OutboundRow { payload, taken: false }),
            }),
    {
        if find(&self.outbound, &Signature(payload.signature)).is_none() {
            if !self.has_list(payload.list_id) {
                return Err(DbError::NoList);
            }
            self.outbound.push(OutboundRow { payload, taken: false });
        }
        Ok(())
    }

    /// The number of updates of a list that wait for their upload.
    pub fn outbound_count(&self, list_id: ListId) -> (r: u64)
        ensures
            r == waiting(self.outbound@, list_id),
            r <= self.outbound@.len(),
    {
        let n: usize = self.outbound.len();
        let mut count: u64 = 0;
        let mut i: usize = 0;
        proof {
            assert(self.outbound@.take(0) =~= Seq::empty());
        }
        while i < n
            invariant
                i <= n,
                n == self.outbound@.len(),
                count <= i,
                count == waiting(self.outbound@.take(i as int), list_id),
            decreases n - i,
        {
            proof {
                assert(self.outbound@.take(i + 1).drop_last() =~= self.outbound@.take(i as int));
                assert(self.outbound@.take(i + 1).last() == self.outbound@[i as int]);
            }
            if self.outbound[i].payload.list_id == list_id {
                count = count + 1;
            }
            i = i + 1;
        }
        proof {
            assert(self.outbound@.take(n as int) =~= self.outbound@);
        }
        count
    }
}

} // verus!
