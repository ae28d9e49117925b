//! What the native filesystem operations decide on their own: which entries
//! of the configuration directory are owned backups and in which order
//! recovery tries them, and the size limit of a configuration read.
use vstd::prelude::*;
use crate::config::codec::MAX_CONFIG_BYTES;
use crate::config::order::{compare_str, lemma_lex_transitive, lemma_lex_trichotomy, lex_less, Comparison};
use crate::config::storage::ConfigIoError;
use crate::error::IoErrorKind;
use crate::text::{concat3, decimal, decimal_string, ends_with, has_prefix, has_suffix, starts_with, string_views};

verus! {

broadcast use vstd::seq_lib::to_multiset_build, vstd::seq_lib::to_multiset_insert;

/// A directory entry as the backup listing reads it: its file name, its
/// path, and when it was last modified (nanoseconds from the Unix epoch).
#[derive(Debug)]
pub struct BackupEntry {
    pub name: String,
    pub path: String,
    pub modified: i128,
}

/// A [`BackupEntry`] with its texts as sequences.
pub struct BackupModel {
    pub name: Seq<char>,
    pub path: Seq<char>,
    pub modified: int,
}

impl View for BackupEntry {
    type V = BackupModel;

    open spec fn view(&self) -> BackupModel {
        BackupModel { name: self.name@, path: self.path@, modified: self.modified as int }
    }
}

/// The views of a sequence of entries.
pub open spec fn entry_views(entries: Seq<BackupEntry>) -> Seq<BackupModel> {
    entries.map_values(|entry: BackupEntry| entry@)
}

/// A file name the configuration transaction gives its backups.
pub open spec fn owned_backup_name(name: Seq<char>) -> bool {
    has_prefix(name, "config.backup-"@) && has_suffix(name, ".toml"@)
}

/// The entries that are owned backups, in the order listed.
pub open spec fn owned_backups(entries: Seq<BackupModel>) -> Seq<BackupModel>
    decreases entries.len(),
{
    if entries.len() == 0 {
        Seq::empty()
    } else {
        let kept = owned_backups(entries.drop_last());
        if owned_backup_name(entries.last().name) {
            kept.push(entries.last())
        } else {
            kept
        }
    }
}

/// `a` is tried before `b`: it was modified later, or at the same time and
/// its name comes later in `String` order.
pub open spec fn tried_before(a: BackupModel, b: BackupModel) -> bool {
    a.modified > b.modified || (a.modified == b.modified && lex_less(b.name, a.name))
}

/// No entry is tried before one that precedes it.
pub open spec fn newest_first(entries: Seq<BackupModel>) -> bool {
    forall|i: int, j: int| 0 <= i < j < entries.len() ==> !tried_before(#[trigger] entries[j], #[trigger] entries[i])
}

proof fn lemma_tried_before_order(a: BackupModel, b: BackupModel, c: BackupModel)
    ensures
        !tried_before(a, a),
        tried_before(a, b) && tried_before(b, c) ==> tried_before(a, c),
{
    lemma_lex_trichotomy(a.name, a.name);
    if tried_before(a, b) && tried_before(b, c) && a.modified == c.modified {
        lemma_lex_transitive(c.name, b.name, a.name);
    }
}

fn is_owned_backup_name(name: &str) -> (owned: bool)
    ensures
        owned == owned_backup_name(name@),
{
    starts_with(name, "config.backup-") && ends_with(name, ".toml")
}

fn is_tried_before(a: &BackupEntry, b: &BackupEntry) -> (before: bool)
    ensures
        before == tried_before(a@, b@),
{
    a.modified > b.modified || (a.modified == b.modified && compare_str(b.name.as_str(), a.name.as_str())
        == Comparison::Less)
}

/// The paths of the owned backups among `entries`, newest first (ties by
/// file name, later first): the order in which recovery tries them.
pub fn order_owned_backups(entries: &Vec<BackupEntry>) -> (paths: Vec<String>)
    ensures
        exists|ordered: Seq<BackupModel>|
            #![trigger newest_first(ordered)]
            newest_first(ordered) && ordered.to_multiset() == owned_backups(entry_views(entries@)).to_multiset()
                && string_views(paths@) == ordered.map_values(|entry: BackupModel| entry.path),
{
    let ghost views = entry_views(entries@);
    let mut order: Vec<usize> = Vec::new();
    let ghost mut ordered: Seq<BackupModel> = Seq::empty();
    let mut i: usize = 0;
    assert(views.take(0) =~= Seq::<BackupModel>::empty());
    while i < entries.len()
        invariant
            views == entry_views(entries@),
            i <= entries@.len(),
            ordered.len() == order@.len(),
            forall|q: int| 0 <= q < order@.len() ==> (#[trigger] order@[q] as int) < entries@.len(),
            forall|q: int| 0 <= q < order@.len() ==> #[trigger] ordered[q] == views[order@[q] as int],
            newest_first(ordered),
            ordered.to_multiset() == owned_backups(views.take(i as int)).to_multiset(),
        decreases entries@.len() - i,
    {
        let entry = &entries[i];
        assert(views[i as int] == entry@);
        assert(views.take(i + 1).drop_last() =~= views.take(i as int));
        assert(views.take(i + 1).last() == views[i as int]);
        if is_owned_backup_name(entry.name.as_str()) {
            let mut p: usize = 0;
            while p < order.len() && !is_tried_before(entry, &entries[order[p]])
                invariant
                    views == entry_views(entries@),
                    i < entries@.len(),
                    entry@ == views[i as int],
                    p <= order@.len(),
                    ordered.len() == order@.len(),
                    forall|q: int| 0 <= q < order@.len() ==> (#[trigger] order@[q] as int) < entries@.len(),
                    forall|q: int| 0 <= q < order@.len() ==> #[trigger] ordered[q] == views[order@[q] as int],
                    forall|q: int| 0 <= q < p ==> !tried_before(views[i as int], #[trigger] ordered[q]),
                decreases order@.len() - p,
            {
                assert(ordered[p as int] == views[order@[p as int] as int]);
                assert(views[order@[p as int] as int] == entries@[order@[p as int] as int]@);
                p += 1;
            }
            let ghost before = ordered;
            let ghost old_order = order@;
            let ghost e = views[i as int];
            proof {
                if p < order@.len() {
                    assert(ordered[p as int] == views[order@[p as int] as int]);
                    assert(views[order@[p as int] as int] == entries@[order@[p as int] as int]@);
                    assert(tried_before(e, before[p as int]));
                }
            }
            order.insert(p, i);
            proof {
                ordered = before.insert(p as int, e);
                assert forall|a: int, b: int| 0 <= a < b < ordered.len() implies !tried_before(
                    #[trigger] ordered[b],
                    #[trigger] ordered[a],
                ) by {
                    if b < p {
                    } else if a > p {
                        assert(ordered[a] == before[a - 1] && ordered[b] == before[b - 1]);
                    } else if a < p && b == p {
                    } else if a < p && b > p {
                        assert(ordered[b] == before[b - 1]);
                    } else {
                        assert(a == p && ordered[a] == e);
                        assert(ordered[b] == before[b - 1]);
                        lemma_tried_before_order(before[b - 1], e, before[p as int]);
                        lemma_tried_before_order(before[p as int], e, e);
                    }
                }
                assert forall|q: int| 0 <= q < order@.len() implies (#[trigger] order@[q] as int) < entries@.len() by {
                    if q > p {
                        assert(order@[q] == old_order[q - 1]);
                    }
                }
                assert forall|q: int| 0 <= q < order@.len() implies #[trigger] ordered[q] == views[order@[q] as int] by {
                    if q > p {
                        assert(ordered[q] == before[q - 1]);
                        assert(order@[q] == old_order[q - 1]);
                    }
                }
                assert(owned_backups(views.take(i + 1)) == owned_backups(views.take(i as int)).push(e));
            }
        } else {
            assert(owned_backups(views.take(i + 1)) == owned_backups(views.take(i as int)));
        }
        i += 1;
    }
    assert(views.take(entries@.len() as int) =~= views);
    let mut paths: Vec<String> = Vec::new();
    let mut k: usize = 0;
    while k < order.len()
        invariant
            views == entry_views(entries@),
            ordered.len() == order@.len(),
            forall|q: int| 0 <= q < order@.len() ==> (#[trigger] order@[q] as int) < entries@.len(),
            forall|q: int| 0 <= q < order@.len() ==> #[trigger] ordered[q] == views[order@[q] as int],
            k <= order@.len(),
            string_views(paths@) == ordered.take(k as int).map_values(|entry: BackupModel| entry.path),
        decreases order@.len() - k,
    {
        let index = order[k];
        assert(ordered[k as int] == views[index as int]);
        assert(views[index as int] == entries@[index as int]@);
        let path = entries[index].path.clone();
        assert(path@ == ordered[k as int].path);
        let ghost before_paths = string_views(paths@);
        paths.push(path);
        assert(string_views(paths@) =~= before_paths.push(path@));
        assert(ordered.take(k + 1) =~= ordered.take(k as int).push(ordered[k as int]));
        assert(string_views(paths@) =~= ordered.take(k + 1).map_values(|entry: BackupModel| entry.path));
        k += 1;
    }
    assert(ordered.take(order@.len() as int) =~= ordered);
    assert(newest_first(ordered));
    paths
}

/// What a configuration read that found more than the codec's limit says.
pub open spec fn oversized_read_message() -> Seq<char> {
    "configuration exceeds "@ + decimal(MAX_CONFIG_BYTES as nat) + " bytes"@
}

/// Admits a configuration read of `length` bytes from `path`: more than the
/// codec's limit is refused.
pub fn check_read_length(path: &str, length: usize) -> (checked: Result<(), ConfigIoError>)
    ensures
        checked is Ok <==> length <= MAX_CONFIG_BYTES,
        checked matches Err(error) ==> error.stage@ == "read_config_limit"@ && error.path@ == path@ && error.kind
            == IoErrorKind::InvalidData && error.code == 0 && error.message@ == oversized_read_message(),
{
    if length > MAX_CONFIG_BYTES {
        Err(ConfigIoError {
            stage: String::from_str("read_config_limit"),
            path: String::from_str(path),
            kind: IoErrorKind::InvalidData,
            code: 0,
            message: concat3("configuration exceeds ", decimal_string(MAX_CONFIG_BYTES as u64).as_str(), " bytes"),
        })
    } else {
        Ok(())
    }
}

} // verus!
