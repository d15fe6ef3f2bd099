//! Batch operations over several plugins: each operation is recorded under a
//! fresh id, run item by item, and kept until cleaned up. Progress is carried
//! as the bit pattern of an IEEE double percentage; times are milliseconds.
use vstd::prelude::*;
use crate::keyed::{Keyed, Store, lemma_store_keys};
use crate::text::{owned, str_eq, strings_view, copy_strings, opt_view, copy_opt_string, i64_to_decimal, signed_decimal};
use crate::dup::{Duplicate, views, dup_vec};
use crate::ids::{new_uuid_string, is_hyphenated_uuid};
use crate::clock::now_millis_unsigned;
use crate::order::{Ranked, sort_desc, sorted_desc, lemma_desc_pos, lemma_sort_desc};
use crate::plugins::types::Plugin;
use crate::plugins::hot_reload::age_cutoff;

verus! {

/// What a batch operation does to each plugin.
#[derive(Clone, Copy, PartialEq, Eq, Structural, Debug)]
pub enum BatchOperationType {
    Install,
    Update,
    Uninstall,
    Enable,
    Disable,
    Reload,
}

/// Where a batch operation stands.
#[derive(Clone, Copy, PartialEq, Eq, Structural, Debug)]
pub enum BatchStatus {
    Pending,
    Running,
    Completed,
    Failed,
    Cancelled,
}

/// The outcome for one plugin of a batch; `details` is JSON text.
pub struct BatchResult {
    pub plugin_id: String,
    pub success: bool,
    pub message: String,
    pub details: Option<String>,
}

/// The plain content of a batch item's outcome.
pub struct BatchResultView {
    pub plugin_id: Seq<char>,
    pub success: bool,
    pub message: Seq<char>,
    pub details: Option<Seq<char>>,
}

impl View for BatchResult {
    type V = BatchResultView;

    open spec fn view(&self) -> BatchResultView {
        BatchResultView {
            plugin_id: self.plugin_id@,
            success: self.success,
            message: self.message@,
            details: opt_view(self.details),
        }
    }
}

impl Duplicate for BatchResult {
    fn dup(&self) -> (r: BatchResult) {
        BatchResult {
            plugin_id: self.plugin_id.clone(),
            success: self.success,
            message: self.message.clone(),
            details: copy_opt_string(&self.details),
        }
    }
}

/// A batch operation over several plugins.
pub struct BatchOperation {
    pub operation_id: String,
    pub operation_type: BatchOperationType,
    pub plugins: Vec<String>,
    pub status: BatchStatus,
    pub progress_bits: u64,
    pub results: Vec<BatchResult>,
    pub started_at: u64,
    pub completed_at: Option<u64>,
    pub errors: Vec<String>,
}

/// The plain content of a batch operation.
pub struct BatchOperationView {
    pub operation_id: Seq<char>,
    pub operation_type: BatchOperationType,
    pub plugins: Seq<Seq<char>>,
    pub status: BatchStatus,
    pub progress_bits: u64,
    pub results: Seq<BatchResultView>,
    pub started_at: u64,
    pub completed_at: Option<u64>,
    pub errors: Seq<Seq<char>>,
}

impl View for BatchOperation {
    type V = BatchOperationView;

    open spec fn view(&self) -> BatchOperationView {
        BatchOperationView {
            operation_id: self.operation_id@,
            operation_type: self.operation_type,
            plugins: strings_view(self.plugins@),
            status: self.status,
            progress_bits: self.progress_bits,
            results: views(self.results@),
            started_at: self.started_at,
            completed_at: self.completed_at,
            errors: strings_view(self.errors@),
        }
    }
}

impl Duplicate for BatchOperation {
    fn dup(&self) -> (r: BatchOperation) {
        let plugins = copy_strings(&self.plugins);
        let errors = copy_strings(&self.errors);
        assert(strings_view(plugins@) == strings_view(self.plugins@));
        assert(strings_view(errors@) == strings_view(self.errors@));
        BatchOperation {
            operation_id: self.operation_id.clone(),
            operation_type: self.operation_type,
            plugins,
            status: self.status,
            progress_bits: self.progress_bits,
            results: dup_vec(&self.results),
            started_at: self.started_at,
            completed_at: self.completed_at,
            errors,
        }
    }
}

impl Keyed for BatchOperation {
    open spec fn key_view(&self) -> Seq<char> {
        self.operation_id@
    }

    fn key_str(&self) -> (r: &str) {
        self.operation_id.as_str()
    }
}

impl Ranked for BatchOperationView {
    open spec fn rank(&self) -> int {
        self.started_at as int
    }
}

// ---------------------------------------------------------------------------
// What the operations do
// ---------------------------------------------------------------------------

/// The bit pattern of the double 100.0: the progress of a batch that ran
/// over at least one plugin.
pub const FULL_PROGRESS_BITS: u64 = 0x4059_0000_0000_0000u64;

/// The bit pattern of the double 0.0.
pub const NO_PROGRESS_BITS: u64 = 0u64;

/// A new pending operation of kind `t` over `plugins`, begun at `now`.
pub open spec fn pending_op(id: Seq<char>, t: BatchOperationType, plugins: Seq<Seq<char>>, now: u64) -> BatchOperationView {
    BatchOperationView {
        operation_id: id,
        operation_type: t,
        plugins,
        status: BatchStatus::Pending,
        progress_bits: NO_PROGRESS_BITS,
        results: seq![],
        started_at: now,
        completed_at: None,
        errors: seq![],
    }
}

/// A successful outcome with message `msg` for each plugin of `ids`, in order.
pub open spec fn successes(ids: Seq<Seq<char>>, msg: Seq<char>) -> Seq<BatchResultView> {
    Seq::new(ids.len(), |i: int| BatchResultView { plugin_id: ids[i], success: true, message: msg, details: None })
}

proof fn lemma_successes_push(ids: Seq<Seq<char>>, x: Seq<char>, msg: Seq<char>)
    ensures
        successes(ids.push(x), msg) == successes(ids, msg).push(BatchResultView { plugin_id: x, success: true, message: msg, details: None }),
{
    assert(successes(ids.push(x), msg) =~= successes(ids, msg).push(BatchResultView { plugin_id: x, success: true, message: msg, details: None }));
}

/// Every outcome of `rs` succeeded.
pub open spec fn all_succeeded(rs: Seq<BatchResultView>) -> bool {
    forall|i: int| 0 <= i < rs.len() ==> #[trigger] rs[i].success
}

/// Operation `op` after running over items whose outcomes are `new`, ending
/// at `now`: the outcomes are appended, the operation completes when every
/// outcome so far succeeded and fails otherwise, and the progress is full
/// when there was at least one item.
pub open spec fn finished(op: BatchOperationView, new: Seq<BatchResultView>, now: u64) -> BatchOperationView {
    let results = op.results + new;
    BatchOperationView {
        status: if all_succeeded(results) { BatchStatus::Completed } else { BatchStatus::Failed },
        progress_bits: if new.len() > 0 { FULL_PROGRESS_BITS } else { op.progress_bits },
        results,
        completed_at: Some(now),
        ..op
    }
}

/// `op` after a request to cancel it at `now`: a pending operation is
/// cancelled, a running one records that it cannot be, any other is left alone.
pub open spec fn cancelled_op(op: BatchOperationView, now: u64) -> BatchOperationView {
    match op.status {
        BatchStatus::Pending => BatchOperationView { status: BatchStatus::Cancelled, completed_at: Some(now), ..op },
        BatchStatus::Running => BatchOperationView { errors: op.errors.push("Cannot cancel running operation"@), ..op },
        _ => op,
    }
}

/// Whether operation `op` is kept by a clean-up with cutoff `cutoff`:
/// unfinished, or finished after the cutoff.
pub open spec fn kept_op(op: BatchOperationView, cutoff: u64) -> bool {
    match op.completed_at {
        None => true,
        Some(t) => t > cutoff,
    }
}

/// The operations of `m` kept by a clean-up with cutoff `cutoff`.
pub open spec fn cleaned_ops(m: Map<Seq<char>, BatchOperationView>, cutoff: u64) -> Map<Seq<char>, BatchOperationView> {
    Map::new(|k: Seq<char>| m.dom().contains(k) && kept_op(m[k], cutoff), |k: Seq<char>| m[k])
}

/// The plugin ids of the updates of `u`.
pub open spec fn update_ids(u: Seq<(String, Plugin)>) -> Seq<Seq<char>> {
    u.map_values(|p: (String, Plugin)| p.0@)
}

/// The ids (as text) of the plugins of `plugins`.
pub open spec fn plugin_ids(plugins: Seq<(Plugin, bool)>) -> Seq<Seq<char>> {
    plugins.map_values(|p: (Plugin, bool)| signed_decimal(p.0.plugin_id as int))
}

/// The time `hours` hours before `now`, at least zero.
fn cutoff_before(now: u64, hours: u64) -> (c: u64)
    ensures
        c == age_cutoff(now, hours),
{
    if hours > now / 3_600_000 {
        assert(hours * 3_600_000 >= now) by (nonlinear_arith)
            requires hours > now / 3_600_000;
        0
    } else {
        assert(hours * 3_600_000 <= now) by (nonlinear_arith)
            requires hours <= now / 3_600_000;
        now - hours * 3_600_000
    }
}

/// Whether every outcome of `rs` succeeded.
fn every_success(rs: &Vec<BatchResult>) -> (b: bool)
    ensures
        b == all_succeeded(views(rs@)),
{
    let n = rs.len();
    let mut i: usize = 0;
    while i < n
        invariant
            n == rs@.len(),
            i <= n,
            forall|k: int| 0 <= k < i ==> #[trigger] views(rs@)[k].success,
        decreases n - i,
    {
        if !rs[i].success {
            assert(!views(rs@)[i as int].success);
            return false;
        }
        i = i + 1;
    }
    true
}

/// A successful outcome for `id` with message `msg`.
fn success_for(id: &str, msg: &str) -> (r: BatchResult)
    ensures
        r@ == (BatchResultView { plugin_id: id@, success: true, message: msg@, details: None }),
{
    BatchResult { plugin_id: owned(id), success: true, message: owned(msg), details: None }
}

/// What running the items with outcomes `new` as operation `id`, ending at
/// `now`, does: a known operation is completed (see `finished`) and
/// returned; an unknown id is an error and changes nothing.
pub open spec fn run_post(old: BatchManager, new: BatchManager, id: Seq<char>, outcomes: Seq<BatchResultView>, now: u64,
    r: Result<BatchOperation, String>) -> bool {
    &&& match r {
        Ok(op) => old.ops().dom().contains(id)
            && op@ == finished(old.ops()[id], outcomes, now)
            && new.ops() == old.ops().insert(id, op@),
        Err(e) => !old.ops().dom().contains(id) && e@ == "Operation not found"@
            && new.ops() == old.ops(),
    }
    &&& new.limit() == old.limit()
}

// ---------------------------------------------------------------------------
// The manager
// ---------------------------------------------------------------------------

/// Batch operations by id, and how many may run at once.
pub struct BatchManager {
    operations: Store<BatchOperation>,
    max_concurrent: usize,
}

impl BatchManager {
    /// The operations by id.
    pub closed spec fn ops(&self) -> Map<Seq<char>, BatchOperationView> {
        self.operations.map().map_values(|o: BatchOperation| o@)
    }

    /// The operations, in the order they are examined.
    pub closed spec fn op_list(&self) -> Seq<BatchOperationView> {
        views(self.operations.items())
    }

    /// How many operations may run at once.
    pub closed spec fn limit(&self) -> usize {
        self.max_concurrent
    }

    /// No operations.
    pub fn new(max_concurrent: usize) -> (m: BatchManager)
        ensures
            m.ops() == Map::<Seq<char>, BatchOperationView>::empty(),
            m.op_list() == Seq::<BatchOperationView>::empty(),
            m.limit() == max_concurrent,
    {
        let m = BatchManager { operations: Store::new(), max_concurrent };
        assert(m.ops() =~= Map::<Seq<char>, BatchOperationView>::empty());
        assert(m.op_list() =~= Seq::<BatchOperationView>::empty());
        m
    }

    /// How many operations may run at once.
    pub fn max_concurrent(&self) -> (n: usize)
        ensures
            n == self.limit(),
    {
        self.max_concurrent
    }

    /// Records a new pending operation of kind `operation_type` over
    /// `plugin_ids`, begun at `now`, under a fresh id, and returns it.
    pub fn start_batch_operation_at(&mut self, operation_type: BatchOperationType, plugin_ids: Vec<String>, now: u64) -> (r: Result<BatchOperation, String>)
        ensures
            r matches Ok(op) && is_hyphenated_uuid(op@.operation_id)
                && op@ == pending_op(op@.operation_id, operation_type, strings_view(plugin_ids@), now)
                && final(self).ops() == old(self).ops().insert(op@.operation_id, op@),
            final(self).limit() == old(self).limit(),
    {
        let operation_id = new_uuid_string();
        let op = BatchOperation {
            operation_id,
            operation_type,
            plugins: plugin_ids,
            status: BatchStatus::Pending,
            progress_bits: NO_PROGRESS_BITS,
            results: Vec::new(),
            started_at: now,
            completed_at: None,
            errors: Vec::new(),
        };
        assert(views(op.results@) =~= Seq::<BatchResultView>::empty());
        assert(strings_view(op.errors@) =~= Seq::<Seq<char>>::empty());
        let copy = op.dup();
        let ghost ov = op@;
        self.operations.upsert(op);
        assert(self.ops() =~= old(self).ops().insert(ov.operation_id, ov));
        Ok(copy)
    }

    /// Records a new pending operation now (see `start_batch_operation_at`).
    pub fn start_batch_operation(&mut self, operation_type: BatchOperationType, plugin_ids: Vec<String>) -> (r: Result<BatchOperation, String>)
        ensures
            r matches Ok(op) && is_hyphenated_uuid(op@.operation_id)
                && op@.status == BatchStatus::Pending && op@.operation_type == operation_type
                && op@.plugins == strings_view(plugin_ids@)
                && final(self).ops() == old(self).ops().insert(op@.operation_id, op@),
    {
        let now = now_millis_unsigned();
        self.start_batch_operation_at(operation_type, plugin_ids, now)
    }

    /// Appends the outcomes `new` to operation `operation_id` and completes
    /// it at `now` (see `finished`); an unknown id is an error.
    fn finish_batch(&mut self, operation_id: &str, new: Vec<BatchResult>, now: u64) -> (r: Result<BatchOperation, String>)
        ensures
            run_post(*old(self), *final(self), operation_id@, views(new@), now, r),
    {
        proof { lemma_store_keys(self.operations); }
        let mut op = match self.operations.get(operation_id) {
            Some(x) => x.dup(),
            None => return Err(owned("Operation not found")),
        };
        let ghost before = op@;
        op.status = BatchStatus::Running;
        let any = new.len() > 0;
        let mut new = new;
        let ghost nv = views(new@);
        let ghost ov = views(op.results@);
        op.results.append(&mut new);
        assert(views(op.results@) =~= ov + nv);
        if any {
            op.progress_bits = FULL_PROGRESS_BITS;
        }
        let all_success = every_success(&op.results);
        op.status = if all_success { BatchStatus::Completed } else { BatchStatus::Failed };
        op.completed_at = Some(now);
        assert(op@ == finished(before, nv, now));
        let copy = op.dup();
        let ghost res = op@;
        self.operations.upsert(op);
        assert(self.ops() =~= old(self).ops().insert(operation_id@, res));
        Ok(copy)
    }

    /// Installs one plugin; always succeeds.
    fn install_single_plugin(&self, plugin: &Plugin, backup: bool) -> (r: Result<(), String>)
        ensures
            r is Ok,
    {
        Ok(())
    }

    /// Updates one plugin; always succeeds.
    fn update_single_plugin(&self, plugin_id: &str, new_plugin: &Plugin) -> (r: Result<(), String>)
        ensures
            r is Ok,
    {
        Ok(())
    }

    /// Uninstalls one plugin; always succeeds.
    fn uninstall_single_plugin(&self, plugin_id: &str, backup: bool) -> (r: Result<(), String>)
        ensures
            r is Ok,
    {
        Ok(())
    }

    /// Enables one plugin; always succeeds.
    fn enable_plugin(&self, plugin_id: &str) -> (r: Result<(), String>)
        ensures
            r is Ok,
    {
        Ok(())
    }

    /// Disables one plugin; always succeeds.
    fn disable_plugin(&self, plugin_id: &str) -> (r: Result<(), String>)
        ensures
            r is Ok,
    {
        Ok(())
    }

    /// Installs `plugins` (each with whether to back up first) as operation
    /// `operation_id`, ending at `now`: each install succeeds with "Success",
    /// under the plugin's numeric id as text.
    pub fn execute_batch_install_at(&mut self, operation_id: &str, plugins: Vec<(Plugin, bool)>, now: u64) -> (r: Result<BatchOperation, String>)
        ensures
            run_post(*old(self), *final(self), operation_id@, successes(plugin_ids(plugins@), "Success"@), now, r),
    {
        let n = plugins.len();
        let mut results: Vec<BatchResult> = Vec::new();
        let mut i: usize = 0;
        while i < n
            invariant
                n == plugins@.len(),
                i <= n,
                views(results@) == successes(plugin_ids(plugins@).take(i as int), "Success"@),
            decreases n - i,
        {
            let outcome = self.install_single_plugin(&plugins[i].0, plugins[i].1);
            let id = i64_to_decimal(plugins[i].0.plugin_id);
            let item = match outcome {
                Ok(()) => success_for(id.as_str(), "Success"),
                Err(e) => BatchResult { plugin_id: id, success: false, message: e, details: None },
            };
            let ghost before = views(results@);
            let ghost iv = item@;
            results.push(item);
            proof {
                let ps = plugin_ids(plugins@);
                assert(ps.take(i + 1) =~= ps.take(i as int).push(ps[i as int]));
                lemma_successes_push(ps.take(i as int), ps[i as int], "Success"@);
                assert(views(results@) =~= before.push(iv));
            }
            i = i + 1;
        }
        assert(plugin_ids(plugins@).take(n as int) =~= plugin_ids(plugins@));
        self.finish_batch(operation_id, results, now)
    }

    /// Installs `plugins` as operation `operation_id` now.
    pub fn execute_batch_install(&mut self, operation_id: &str, plugins: Vec<(Plugin, bool)>) -> (r: Result<BatchOperation, String>)
        ensures
            exists|now: u64| run_post(*old(self), *final(self), operation_id@, successes(plugin_ids(plugins@), "Success"@), now, r),
            r is Ok <==> old(self).ops().dom().contains(operation_id@),
            r matches Ok(op) ==> op@.results == old(self).ops()[operation_id@].results + successes(plugin_ids(plugins@), "Success"@)
                && final(self).ops() == old(self).ops().insert(operation_id@, op@),
    {
        let now = now_millis_unsigned();
        self.execute_batch_install_at(operation_id, plugins, now)
    }

    /// Updates plugins as operation `operation_id`, ending at `now`: each
    /// pair holds the plugin's id and its new release; each update succeeds
    /// with "Updated".
    pub fn execute_batch_update_at(&mut self, operation_id: &str, updates: Vec<(String, Plugin)>, now: u64) -> (r: Result<BatchOperation, String>)
        ensures
            run_post(*old(self), *final(self), operation_id@, successes(update_ids(updates@), "Updated"@), now, r),
    {
        let ghost ids = update_ids(updates@);
        let n = updates.len();
        let mut results: Vec<BatchResult> = Vec::new();
        let mut i: usize = 0;
        while i < n
            invariant
                n == updates@.len(),
                ids == update_ids(updates@),
                i <= n,
                views(results@) == successes(ids.take(i as int), "Updated"@),
            decreases n - i,
        {
            let outcome = self.update_single_plugin(updates[i].0.as_str(), &updates[i].1);
            let item = match outcome {
                Ok(()) => success_for(updates[i].0.as_str(), "Updated"),
                Err(e) => BatchResult { plugin_id: updates[i].0.clone(), success: false, message: e, details: None },
            };
            let ghost before = views(results@);
            let ghost iv = item@;
            results.push(item);
            proof {
                assert(ids.take(i + 1) =~= ids.take(i as int).push(ids[i as int]));
                lemma_successes_push(ids.take(i as int), ids[i as int], "Updated"@);
                assert(views(results@) =~= before.push(iv));
            }
            i = i + 1;
        }
        assert(ids.take(n as int) =~= ids);
        self.finish_batch(operation_id, results, now)
    }

    /// Updates plugins as operation `operation_id` now.
    pub fn execute_batch_update(&mut self, operation_id: &str, updates: Vec<(String, Plugin)>) -> (r: Result<BatchOperation, String>)
        ensures
            exists|now: u64| run_post(*old(self), *final(self), operation_id@, successes(update_ids(updates@), "Updated"@), now, r),
            r is Ok <==> old(self).ops().dom().contains(operation_id@),
            r matches Ok(op) ==> final(self).ops() == old(self).ops().insert(operation_id@, op@),
    {
        let now = now_millis_unsigned();
        self.execute_batch_update_at(operation_id, updates, now)
    }

    /// Runs one single-plugin step of kind `t` on each of `plugin_ids`,
    /// collecting the outcomes with the messages of that kind.
    fn run_simple(&self, t: BatchOperationType, plugin_ids: &Vec<String>, create_backups: bool) -> (results: Vec<BatchResult>)
        requires
            t == BatchOperationType::Uninstall || t == BatchOperationType::Enable || t == BatchOperationType::Disable,
        ensures
            views(results@) == successes(strings_view(plugin_ids@), simple_message(t)),
    {
        let ghost ids = strings_view(plugin_ids@);
        let n = plugin_ids.len();
        let mut results: Vec<BatchResult> = Vec::new();
        let mut i: usize = 0;
        while i < n
            invariant
                n == plugin_ids@.len(),
                ids == strings_view(plugin_ids@),
                t == BatchOperationType::Uninstall || t == BatchOperationType::Enable || t == BatchOperationType::Disable,
                i <= n,
                views(results@) == successes(ids.take(i as int), simple_message(t)),
            decreases n - i,
        {
            let id = plugin_ids[i].as_str();
            let (outcome, ok_msg, fail_msg) = match t {
                BatchOperationType::Uninstall => (self.uninstall_single_plugin(id, create_backups), "Uninstalled", "Failed to uninstall"),
                BatchOperationType::Enable => (self.enable_plugin(id), "Enabled", "Failed to enable"),
                _ => (self.disable_plugin(id), "Disabled", "Failed to disable"),
            };
            proof {
                reveal_strlit("Uninstalled");
                reveal_strlit("Enabled");
                reveal_strlit("Disabled");
            }
            let item = if outcome.is_ok() {
                success_for(id, ok_msg)
            } else {
                BatchResult { plugin_id: owned(id), success: false, message: owned(fail_msg), details: None }
            };
            let ghost before = views(results@);
            let ghost iv = item@;
            results.push(item);
            proof {
                assert(ids.take(i + 1) =~= ids.take(i as int).push(ids[i as int]));
                lemma_successes_push(ids.take(i as int), ids[i as int], simple_message(t));
                assert(views(results@) =~= before.push(iv));
            }
            i = i + 1;
        }
        assert(ids.take(n as int) =~= ids);
        results
    }

    /// Uninstalls `plugin_ids` as operation `operation_id`, ending at `now`;
    /// each uninstall succeeds with "Uninstalled".
    pub fn execute_batch_uninstall_at(&mut self, operation_id: &str, plugin_ids: Vec<String>, create_backups: bool, now: u64) -> (r: Result<BatchOperation, String>)
        ensures
            run_post(*old(self), *final(self), operation_id@, successes(strings_view(plugin_ids@), "Uninstalled"@), now, r),
    {
        let results = self.run_simple(BatchOperationType::Uninstall, &plugin_ids, create_backups);
        self.finish_batch(operation_id, results, now)
    }

    /// Uninstalls `plugin_ids` as operation `operation_id` now.
    pub fn execute_batch_uninstall(&mut self, operation_id: &str, plugin_ids: Vec<String>, create_backups: bool) -> (r: Result<BatchOperation, String>)
        ensures
            exists|now: u64| run_post(*old(self), *final(self), operation_id@, successes(strings_view(plugin_ids@), "Uninstalled"@), now, r),
            r is Ok <==> old(self).ops().dom().contains(operation_id@),
            r matches Ok(op) ==> final(self).ops() == old(self).ops().insert(operation_id@, op@),
    {
        let now = now_millis_unsigned();
        self.execute_batch_uninstall_at(operation_id, plugin_ids, create_backups, now)
    }

    /// Enables `plugin_ids` as operation `operation_id`, ending at `now`;
    /// each succeeds with "Enabled".
    pub fn execute_batch_enable_at(&mut self, operation_id: &str, plugin_ids: Vec<String>, now: u64) -> (r: Result<BatchOperation, String>)
        ensures
            run_post(*old(self), *final(self), operation_id@, successes(strings_view(plugin_ids@), "Enabled"@), now, r),
    {
        let results = self.run_simple(BatchOperationType::Enable, &plugin_ids, false);
        self.finish_batch(operation_id, results, now)
    }

    /// Enables `plugin_ids` as operation `operation_id` now.
    pub fn execute_batch_enable(&mut self, operation_id: &str, plugin_ids: Vec<String>) -> (r: Result<BatchOperation, String>)
        ensures
            exists|now: u64| run_post(*old(self), *final(self), operation_id@, successes(strings_view(plugin_ids@), "Enabled"@), now, r),
            r is Ok <==> old(self).ops().dom().contains(operation_id@),
            r matches Ok(op) ==> final(self).ops() == old(self).ops().insert(operation_id@, op@),
    {
        let now = now_millis_unsigned();
        self.execute_batch_enable_at(operation_id, plugin_ids, now)
    }

    /// Disables `plugin_ids` as operation `operation_id`, ending at `now`;
    /// each succeeds with "Disabled".
    pub fn execute_batch_disable_at(&mut self, operation_id: &str, plugin_ids: Vec<String>, now: u64) -> (r: Result<BatchOperation, String>)
        ensures
            run_post(*old(self), *final(self), operation_id@, successes(strings_view(plugin_ids@), "Disabled"@), now, r),
    {
        let results = self.run_simple(BatchOperationType::Disable, &plugin_ids, false);
        self.finish_batch(operation_id, results, now)
    }

    /// Disables `plugin_ids` as operation `operation_id` now.
    pub fn execute_batch_disable(&mut self, operation_id: &str, plugin_ids: Vec<String>) -> (r: Result<BatchOperation, String>)
        ensures
            exists|now: u64| run_post(*old(self), *final(self), operation_id@, successes(strings_view(plugin_ids@), "Disabled"@), now, r),
            r is Ok <==> old(self).ops().dom().contains(operation_id@),
            r matches Ok(op) ==> final(self).ops() == old(self).ops().insert(operation_id@, op@),
    {
        let now = now_millis_unsigned();
        self.execute_batch_disable_at(operation_id, plugin_ids, now)
    }

    /// A copy of operation `operation_id`, if any.
    pub fn get_operation_status(&self, operation_id: &str) -> (r: Option<BatchOperation>)
        ensures
            match r {
                Some(op) => self.ops().dom().contains(operation_id@) && op@ == self.ops()[operation_id@],
                None => !self.ops().dom().contains(operation_id@),
            },
    {
        match self.operations.get(operation_id) {
            Some(op) => Some(op.dup()),
            None => None,
        }
    }

    /// Cancels operation `operation_id` at `now` if it is pending; a running
    /// operation records that it cannot be cancelled. Nothing happens to
    /// other or unknown operations.
    pub fn cancel_operation_at(&mut self, operation_id: &str, now: u64) -> (r: Result<(), String>)
        ensures
            r is Ok,
            old(self).ops().dom().contains(operation_id@) ==> final(self).ops() == old(self).ops().insert(operation_id@, cancelled_op(old(self).ops()[operation_id@], now)),
            !old(self).ops().dom().contains(operation_id@) ==> final(self).ops() == old(self).ops(),
            final(self).limit() == old(self).limit(),
    {
        proof { lemma_store_keys(self.operations); }
        let mut op = match self.operations.get(operation_id) {
            Some(x) => x.dup(),
            None => return Ok(()),
        };
        match op.status {
            BatchStatus::Pending => {
                op.status = BatchStatus::Cancelled;
                op.completed_at = Some(now);
            }
            BatchStatus::Running => {
                let ghost before = strings_view(op.errors@);
                op.errors.push(owned("Cannot cancel running operation"));
                assert(strings_view(op.errors@) =~= before.push("Cannot cancel running operation"@));
            }
            _ => {}
        }
        let ghost ov = op@;
        self.operations.upsert(op);
        assert(self.ops() =~= old(self).ops().insert(operation_id@, ov));
        Ok(())
    }

    /// Cancels operation `operation_id` now (see `cancel_operation_at`).
    pub fn cancel_operation(&mut self, operation_id: &str) -> (r: Result<(), String>)
        ensures
            r is Ok,
            final(self).ops().dom() == old(self).ops().dom(),
            old(self).ops().dom().contains(operation_id@) ==> exists|now: u64| final(self).ops() == old(self).ops().insert(operation_id@, cancelled_op(old(self).ops()[operation_id@], now)),
            !old(self).ops().dom().contains(operation_id@) ==> final(self).ops() == old(self).ops(),
    {
        let now = now_millis_unsigned();
        let r = self.cancel_operation_at(operation_id, now);
        proof {
            if old(self).ops().dom().contains(operation_id@) {
                assert(self.ops().dom() =~= old(self).ops().dom());
            }
        }
        r
    }

    /// Copies of all operations, newest first.
    pub fn get_all_operations(&self) -> (r: Vec<BatchOperation>)
        ensures
            views(r@) == sort_desc(self.op_list()),
    {
        let items = self.operations.as_vec();
        let ghost s = self.op_list();
        let n = items.len();
        let mut r: Vec<BatchOperation> = Vec::new();
        let mut i: usize = 0;
        while i < n
            invariant
                n == items@.len(),
                views(items@) == s,
                i <= n,
                views(r@) == sort_desc(s.take(i as int)),
            decreases n - i,
        {
            let x = items[i].dup();
            let m = r.len();
            let mut p: usize = 0;
            while p < m && r[p].started_at >= x.started_at
                invariant
                    m == r@.len(),
                    p <= m,
                    forall|k: int| 0 <= k < p ==> #[trigger] views(r@)[k].rank() >= x@.rank(),
                decreases m - p,
            {
                p = p + 1;
            }
            let ghost before = views(r@);
            let ghost xv = x@;
            proof {
                lemma_desc_pos(before, xv, p as int);
                assert(s.take(i + 1).drop_last() =~= s.take(i as int));
                assert(s.take(i + 1).last() == xv);
            }
            r.insert(p, x);
            assert(views(r@) =~= before.insert(p as int, xv));
            i = i + 1;
        }
        proof { assert(s.take(n as int) =~= s); }
        r
    }

    /// Drops the operations that finished no later than `max_age_hours`
    /// hours before `now` (the cutoff saturating at zero); returns how many
    /// went.
    pub fn cleanup_completed_operations_at(&mut self, max_age_hours: u64, now: u64) -> (removed: usize)
        ensures
            final(self).ops() == cleaned_ops(old(self).ops(), age_cutoff(now, max_age_hours)),
            removed == old(self).op_list().len() - final(self).op_list().len(),
            final(self).limit() == old(self).limit(),
    {
        let cutoff = cutoff_before(now, max_age_hours);
        self.operations.facts();
        let ghost om = self.operations.map();
        let ghost old_items = self.operations.items();
        let mut drop: Vec<String> = Vec::new();
        let ghost mut idx: Seq<int> = seq![];
        {
            let items = self.operations.as_vec();
            let n = items.len();
            let mut i: usize = 0;
            while i < n
                invariant
                    n == items@.len(),
                    items@ == old_items,
                    i <= n,
                    idx.len() == drop@.len(),
                    forall|a: int| 0 <= a < drop@.len() ==> 0 <= #[trigger] idx[a] < i
                        && old_items[idx[a]].key_view() == drop@[a]@ && !kept_op(old_items[idx[a]]@, cutoff),
                    forall|j: int| 0 <= j < i && !kept_op(old_items[j]@, cutoff) ==> #[trigger] strings_view(drop@).contains(old_items[j].key_view()),
                decreases n - i,
            {
                let kept = match items[i].completed_at {
                    None => true,
                    Some(t) => t > cutoff,
                };
                if !kept {
                    let ghost before = drop@;
                    drop.push(items[i].operation_id.clone());
                    proof {
                        idx = idx.push(i as int);
                        assert forall|j: int| 0 <= j < i + 1 && !kept_op(old_items[j]@, cutoff) implies #[trigger] strings_view(drop@).contains(old_items[j].key_view()) by {
                            if j < i {
                                assert(strings_view(before).contains(old_items[j].key_view()));
                                let a = choose|a: int| 0 <= a < strings_view(before).len() && strings_view(before)[a] == old_items[j].key_view();
                                assert(strings_view(drop@)[a] == old_items[j].key_view());
                            } else {
                                assert(strings_view(drop@)[drop@.len() - 1] == old_items[j].key_view());
                            }
                        }
                    }
                }
                i = i + 1;
            }
        }
        let before_len = self.operations.len();
        let m = drop.len();
        let mut k: usize = 0;
        while k < m
            invariant
                m == drop@.len(),
                k <= m,
                self.operations.map() == Map::new(|key: Seq<char>| om.dom().contains(key) && !strings_view(drop@).take(k as int).contains(key), |key: Seq<char>| om[key]),
                self.operations.items().len() <= before_len,
                before_len == old_items.len(),
                self.max_concurrent == old(self).max_concurrent,
            decreases m - k,
        {
            let _ = self.operations.remove(drop[k].as_str());
            proof {
                let x = drop@[k as int]@;
                assert(strings_view(drop@).take(k + 1) =~= strings_view(drop@).take(k as int).push(x));
                assert forall|key: Seq<char>| strings_view(drop@).take(k + 1).contains(key)
                    <==> (strings_view(drop@).take(k as int).contains(key) || key == x) by {
                    let t = strings_view(drop@).take(k as int);
                    if t.push(x).contains(key) {
                        let a = choose|a: int| 0 <= a < t.push(x).len() && t.push(x)[a] == key;
                        if a < t.len() {
                            assert(t[a] == key);
                        }
                    }
                    if t.contains(key) {
                        let a = choose|a: int| 0 <= a < t.len() && t[a] == key;
                        assert(t.push(x)[a] == key);
                    }
                    if key == x {
                        assert(t.push(x)[t.len() as int] == key);
                    }
                }
                assert(self.operations.map() =~= Map::new(|key: Seq<char>| om.dom().contains(key) && !strings_view(drop@).take(k + 1).contains(key), |key: Seq<char>| om[key]));
            }
            k = k + 1;
        }
        proof {
            assert(strings_view(drop@).take(m as int) =~= strings_view(drop@));
            assert forall|key: Seq<char>| om.dom().contains(key) implies (strings_view(drop@).contains(key) <==> !kept_op(om[key]@, cutoff)) by {
                let j = choose|j: int| 0 <= j < old_items.len() && #[trigger] old_items[j].key_view() == key;
                assert(om[old_items[j].key_view()] == old_items[j]);
                if strings_view(drop@).contains(key) {
                    let a = choose|a: int| 0 <= a < strings_view(drop@).len() && strings_view(drop@)[a] == key;
                    assert(drop@[a]@ == key);
                    let j2 = idx[a];
                    assert(om[old_items[j2].key_view()] == old_items[j2]);
                }
            }
            assert(self.ops() =~= cleaned_ops(old(self).ops(), cutoff));
        }
        before_len - self.operations.len()
    }

    /// Drops the operations that finished `max_age_hours` hours or more ago.
    pub fn cleanup_completed_operations(&mut self, max_age_hours: u64) -> (removed: usize)
        ensures
            exists|now: u64| final(self).ops() == cleaned_ops(old(self).ops(), age_cutoff(now, max_age_hours)),
            removed == old(self).op_list().len() - final(self).op_list().len(),
    {
        let now = now_millis_unsigned();
        self.cleanup_completed_operations_at(max_age_hours, now)
    }
}

/// The message of a successful step of kind `t`.
pub open spec fn simple_message(t: BatchOperationType) -> Seq<char> {
    match t {
        BatchOperationType::Uninstall => "Uninstalled"@,
        BatchOperationType::Enable => "Enabled"@,
        _ => "Disabled"@,
    }
}

// ---------------------------------------------------------------------------
// Laws
// ---------------------------------------------------------------------------

/// The list of all operations is newest first and holds each operation once.
pub proof fn law_operations_newest_first(s: Seq<BatchOperationView>)
    ensures
        sorted_desc(sort_desc(s)),
        sort_desc(s).to_multiset() == s.to_multiset(),
{
    lemma_sort_desc(s);
}

/// A batch whose earlier outcomes all succeeded completes when every new
/// step succeeds, with full progress when it ran over any plugin.
pub proof fn law_successful_batch_completes(op: BatchOperationView, ids: Seq<Seq<char>>, msg: Seq<char>, now: u64)
    requires
        all_succeeded(op.results),
    ensures
        finished(op, successes(ids, msg), now).status == BatchStatus::Completed,
        finished(op, successes(ids, msg), now).results.len() == op.results.len() + ids.len(),
        ids.len() > 0 ==> finished(op, successes(ids, msg), now).progress_bits == FULL_PROGRESS_BITS,
        finished(op, successes(ids, msg), now).completed_at == Some(now),
{
    let rs = op.results + successes(ids, msg);
    assert forall|i: int| 0 <= i < rs.len() implies #[trigger] rs[i].success by {
        if i < op.results.len() {
            assert(rs[i] == op.results[i]);
        } else {
            assert(rs[i] == successes(ids, msg)[i - op.results.len()]);
        }
    }
}

/// Only a pending operation can be cancelled; cancelling never changes what
/// an operation is about.
pub proof fn law_cancel_only_pending(op: BatchOperationView, now: u64)
    ensures
        (cancelled_op(op, now).status == BatchStatus::Cancelled) <==> (op.status == BatchStatus::Pending || op.status == BatchStatus::Cancelled),
        cancelled_op(op, now).operation_id == op.operation_id,
        cancelled_op(op, now).plugins == op.plugins,
        cancelled_op(op, now).results == op.results,
{
}

/// A clean-up never drops an unfinished operation.
pub proof fn law_cleanup_keeps_unfinished(m: Map<Seq<char>, BatchOperationView>, cutoff: u64, k: Seq<char>)
    requires
        m.dom().contains(k),
        m[k].completed_at is None,
    ensures
        cleaned_ops(m, cutoff).dom().contains(k),
        cleaned_ops(m, cutoff)[k] == m[k],
{
}

} // verus!
