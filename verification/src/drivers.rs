//! Choosing which configured drivers get created, and by which loaded plugin.
use vstd::prelude::*;

verus! {

/// A driver as the driver list describes it: its name, its configuration
/// (as JSON text) and the name of the plugin that creates it.
pub struct DriverInfo {
    pub name: String,
    pub config: String,
    pub plugin: String,
}

/// The position of the last plugin named `wanted` among `plugins` (a later plugin
/// loaded under a name replaces an earlier one), if any.
pub open spec fn last_plugin_named(plugins: Seq<String>, wanted: Seq<char>) -> Option<int>
    decreases plugins.len(),
{
    if plugins.len() == 0 {
        None
    } else if plugins.last()@ == wanted {
        Some(plugins.len() - 1)
    } else {
        last_plugin_named(plugins.drop_last(), wanted)
    }
}

/// The creations that a driver list asks for, in its order: each driver whose plugin
/// was loaded, paired with the plugin that serves its plugin name.
pub open spec fn creations(drivers: Seq<DriverInfo>, plugins: Seq<String>) -> Seq<(usize, usize)>
    decreases drivers.len(),
{
    if drivers.len() == 0 {
        Seq::empty()
    } else {
        let earlier = creations(drivers.drop_last(), plugins);
        match last_plugin_named(plugins, drivers.last().plugin@) {
            Some(p) => earlier.push(((drivers.len() - 1) as usize, p as usize)),
            None => earlier,
        }
    }
}

proof fn lemma_last_plugin_named_bounds(plugins: Seq<String>, wanted: Seq<char>)
    ensures
        last_plugin_named(plugins, wanted) matches Some(p) ==> 0 <= p < plugins.len()
            && plugins[p]@ == wanted && forall|q: int|
            p < q < plugins.len() ==> #[trigger] plugins[q]@ != wanted,
        last_plugin_named(plugins, wanted) is None ==> forall|q: int|
            0 <= q < plugins.len() ==> #[trigger] plugins[q]@ != wanted,
    decreases plugins.len(),
{
    if plugins.len() > 0 {
        lemma_last_plugin_named_bounds(plugins.drop_last(), wanted);
        assert forall|q: int| 0 <= q < plugins.len() - 1 implies plugins.drop_last()[q] == plugins[q] by {}
    }
}

/// The last plugin named `wanted`: the one that a lookup by name finds after all
/// plugins were loaded in order.
pub fn plugin_for(plugins: &Vec<String>, wanted: &String) -> (r: Option<usize>)
    ensures
        r == match last_plugin_named(plugins@, wanted@) {
            Some(p) => Some(p as usize),
            None => None::<usize>,
        },
{
    let mut i = plugins.len();
    assert(plugins@.take(i as int) =~= plugins@);
    while i > 0
        invariant
            i <= plugins@.len(),
            last_plugin_named(plugins@, wanted@) == last_plugin_named(plugins@.take(i as int), wanted@),
        decreases i,
    {
        let ghost prefix = plugins@.take(i as int);
        assert(prefix.drop_last() =~= plugins@.take(i - 1));
        if plugins[i - 1].eq(wanted) {
            return Some(i - 1);
        }
        i = i - 1;
    }
    assert(plugins@.take(0) =~= Seq::<String>::empty());
    None
}

/// The drivers to create, in the order of the driver list, each with the plugin that
/// creates it: exactly the drivers whose plugin was loaded.
pub fn drivers_to_create(drivers: &Vec<DriverInfo>, plugins: &Vec<String>) -> (r: Vec<(usize, usize)>)
    ensures
        r@ == creations(drivers@, plugins@),
{
    let mut out: Vec<(usize, usize)> = Vec::new();
    let mut d: usize = 0;
    while d < drivers.len()
        invariant
            d <= drivers@.len(),
            out@ == creations(drivers@.take(d as int), plugins@),
        decreases drivers@.len() - d,
    {
        assert(drivers@.take(d + 1).drop_last() =~= drivers@.take(d as int));
        match plugin_for(plugins, &drivers[d].plugin) {
            Some(p) => {
                out.push((d, p));
            },
            None => {},
        }
        d = d + 1;
    }
    assert(drivers@.take(drivers@.len() as int) =~= drivers@);
    out
}


/// Whether a plugin named `wanted` was loaded.
pub open spec fn plugin_loaded(plugins: Seq<String>, wanted: Seq<char>) -> bool {
    exists|q: int| 0 <= q < plugins.len() && #[trigger] plugins[q]@ == wanted
}

/// Whether the driver at position `d` is among the creations.
pub open spec fn is_created(drivers: Seq<DriverInfo>, plugins: Seq<String>, d: int) -> bool {
    exists|k: int|
        0 <= k < creations(drivers, plugins).len() && #[trigger] creations(drivers, plugins)[k].0 == d
}

/// A driver is created exactly when a plugin of its plugin name was loaded; it is
/// created by the last plugin loaded under that name; and creations follow the
/// order of the driver list, each driver at most once.
pub proof fn law_created_iff_plugin_loaded(drivers: Seq<DriverInfo>, plugins: Seq<String>)
    requires
        drivers.len() <= usize::MAX,
        plugins.len() <= usize::MAX,
    ensures
        forall|k: int|
            0 <= k < creations(drivers, plugins).len() ==> {
                let (d, p) = #[trigger] creations(drivers, plugins)[k];
                &&& d < drivers.len()
                &&& p < plugins.len()
                &&& plugins[p as int]@ == drivers[d as int].plugin@
                &&& forall|q: int| p < q < plugins.len() ==> plugins[q]@ != drivers[d as int].plugin@
            },
        forall|k1: int, k2: int|
            0 <= k1 < k2 < creations(drivers, plugins).len() ==> #[trigger] creations(drivers, plugins)[k1].0
                < #[trigger] creations(drivers, plugins)[k2].0,
        forall|d: int|
            0 <= d < drivers.len() ==> (is_created(drivers, plugins, d) <==> plugin_loaded(
                plugins,
                #[trigger] drivers[d].plugin@,
            )),
    decreases drivers.len(),
{
    if drivers.len() > 0 {
        let rest = drivers.drop_last();
        law_created_iff_plugin_loaded(rest, plugins);
        let last = drivers.len() - 1;
        let wanted = drivers[last].plugin@;
        lemma_last_plugin_named_bounds(plugins, wanted);
        let earlier = creations(rest, plugins);
        let all = creations(drivers, plugins);
        match last_plugin_named(plugins, wanted) {
            Some(p) => {
                assert(all == earlier.push((last as usize, p as usize)));
                assert(plugin_loaded(plugins, wanted));
            },
            None => {
                assert(all == earlier);
                assert(!plugin_loaded(plugins, wanted));
            },
        }
        assert(forall|k: int| 0 <= k < earlier.len() ==> all[k] == earlier[k]);
        assert forall|k: int| 0 <= k < earlier.len() implies earlier[k].0 < last by {
            let (d, p) = earlier[k];
        }
        assert forall|d: int| 0 <= d < drivers.len() implies (is_created(drivers, plugins, d)
            <==> plugin_loaded(plugins, #[trigger] drivers[d].plugin@)) by {
            if d < last {
                assert(rest[d] == drivers[d]);
                if is_created(rest, plugins, d) {
                    let k = choose|k: int| 0 <= k < earlier.len() && earlier[k].0 == d;
                    assert(all[k].0 == d);
                }
                if is_created(drivers, plugins, d) {
                    let k = choose|k: int| 0 <= k < all.len() && all[k].0 == d;
                    if k >= earlier.len() {
                        assert(all[k].0 == last);
                    }
                    assert(earlier[k].0 == d);
                }
            } else {
                if last_plugin_named(plugins, wanted) is Some {
                    assert(all[earlier.len() as int].0 == d);
                } else if is_created(drivers, plugins, d) {
                    let k = choose|k: int| 0 <= k < all.len() && all[k].0 == d;
                    assert(all[k] == earlier[k]);
                }
            }
        }
        assert forall|k: int| 0 <= k < all.len() implies {
            let (d, p) = #[trigger] all[k];
            &&& d < drivers.len()
            &&& p < plugins.len()
            &&& plugins[p as int]@ == drivers[d as int].plugin@
            &&& forall|q: int| p < q < plugins.len() ==> plugins[q]@ != drivers[d as int].plugin@
        } by {
            if k < earlier.len() {
                let (d, p) = earlier[k];
                assert(rest[d as int] == drivers[d as int]);
            }
        }
    }
}

} // verus!
