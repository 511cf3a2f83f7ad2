use vstd::prelude::*;

use crate::fjall::{
    FjallRdfConfiguration, FIRST_ENTRY_IN_ROW_ITERATOR_ID, ITERATOR_SETTINGS_KIND,
    ITERATOR_SETTINGS_NAME, ITERATOR_SETTINGS_OPTIONS_KEY, ITERATOR_SETTINGS_OPTIONS_SIZE,
    ITERATOR_SETTINGS_OPTIONS_VALUE, ITERATOR_SETTINGS_PRIORITY, ITERATOR_SETTINGS_SIZE,
};
use crate::intparse::{int_parse_error, parse_i32_text, parse_usize_text};
use crate::strmap::{EntryText, StrMap};
use crate::text::{
    concat, decimal, i64_to_string, parse_in_range, parse_signed_spec, parse_unsigned_spec,
    push_str, signed_decimal, str_eq, to_owned, u64_to_string,
};
use crate::words::{split_once_str, split_once_str_spec};

verus! {

/// `s` with its first `%d` replaced by `rep`.
pub open spec fn replace_first(s: Seq<char>, rep: Seq<char>) -> Seq<char> {
    match split_once_str_spec(s, "%d"@) {
        Some((a, b)) => a + rep + b,
        None => s,
    }
}

/// A configuration key made from a pattern: its first `%d` becomes `i`, the next one `j`.
pub open spec fn iterator_key_spec(pattern: Seq<char>, i: int, j: Option<int>) -> Seq<char> {
    let with_i = replace_first(pattern, decimal(i as nat));
    match j {
        Some(j) => replace_first(with_i, decimal(j as nat)),
        None => with_i,
    }
}

fn replace_first_with(s: &str, rep: &str) -> (r: String)
    ensures
        r@ == replace_first(s@, rep@),
{
    match split_once_str(s, "%d") {
        Some((a, b)) => {
            let mut out = a;
            push_str(&mut out, rep);
            push_str(&mut out, b.as_str());
            out
        },
        None => to_owned(s),
    }
}

/// The configuration key of an iterator setting, or of one of its options.
pub fn iterator_key(pattern: &str, i: usize, j: Option<usize>) -> (r: String)
    ensures
        r@ == iterator_key_spec(
            pattern@,
            i as int,
            match j {
                Some(j) => Some(j as int),
                None => None,
            },
        ),
{
    let with_i = replace_first_with(pattern, u64_to_string(i as u64).as_str());
    match j {
        Some(j) => replace_first_with(with_i.as_str(), u64_to_string(j as u64).as_str()),
        None => with_i,
    }
}

/// The mathematical value of an iterator setting.
pub struct IteratorSettingModel {
    pub priority: int,
    pub name: Seq<char>,
    pub iterator_id: Seq<char>,
    pub options: Map<Seq<char>, Seq<char>>,
}

/// A server-side iterator applied to scans: its priority, name, kind and options.
pub struct IteratorSetting {
    pub priority: i32,
    pub name: String,
    pub iterator_id: String,
    pub options: StrMap,
}

/// The map that pairs make when inserted in order, a later key replacing an earlier one.
pub open spec fn pairs_to_map(s: Seq<EntryText>) -> Map<Seq<char>, Seq<char>>
    decreases s.len(),
{
    if s.len() == 0 {
        Map::empty()
    } else {
        pairs_to_map(s.drop_last()).insert(s.last().0, s.last().1)
    }
}

pub open spec fn pair_views(s: Seq<(String, String)>) -> Seq<EntryText> {
    s.map_values(|p: (String, String)| (p.0@, p.1@))
}

impl IteratorSetting {
    pub open spec fn model(self) -> IteratorSettingModel {
        IteratorSettingModel {
            priority: self.priority as int,
            name: self.name@,
            iterator_id: self.iterator_id@,
            options: self.options@,
        }
    }

    /// A setting with the given options; of two options with one key the later stays.
    pub fn new(priority: i32, name: &str, iterator_id: &str, options: &[(String, String)]) -> (r: Self)
        ensures
            r.priority == priority,
            r.name@ == name@,
            r.iterator_id@ == iterator_id@,
            r.options@ == pairs_to_map(pair_views(options@)),
    {
        let mut map = StrMap::new();
        let mut i: usize = 0;
        while i < options.len()
            invariant
                i <= options.len(),
                map@ == pairs_to_map(pair_views(options@).take(i as int)),
            decreases options.len() - i,
        {
            map.insert(options[i].0.clone(), options[i].1.clone());
            assert(pair_views(options@).take(i + 1).drop_last() =~= pair_views(options@).take(i as int));
            i = i + 1;
        }
        assert(pair_views(options@).take(i as int) =~= pair_views(options@));
        IteratorSetting {
            priority,
            name: to_owned(name),
            iterator_id: to_owned(iterator_id),
            options: map,
        }
    }

    /// The setting of the iterator that keeps the first entry of each row.
    pub fn first_entry_in_row(priority: i32) -> (r: Self)
        ensures
            r.priority == priority,
            r.name@ == "FirstEntryInRowIterator"@,
            r.iterator_id@ == FIRST_ENTRY_IN_ROW_ITERATOR_ID@,
            r.options@ == Map::<Seq<char>, Seq<char>>::empty(),
    {
        let none: Vec<(String, String)> = Vec::new();
        let r = IteratorSetting::new(
            priority,
            "FirstEntryInRowIterator",
            FIRST_ENTRY_IN_ROW_ITERATOR_ID,
            none.as_slice(),
        );
        assert(pair_views(none@) =~= Seq::<EntryText>::empty());
        r
    }

    /// Whether this setting names the first-entry-in-row iterator.
    pub fn is_first_entry_in_row(&self) -> (r: bool)
        ensures
            r == is_first_entry_id(self.iterator_id@),
    {
        str_eq(self.iterator_id.as_str(), FIRST_ENTRY_IN_ROW_ITERATOR_ID) || str_eq(
            self.iterator_id.as_str(),
            "first_entry_in_row",
        )
    }
}

/// The kinds by which the first-entry-in-row iterator is named.
pub open spec fn is_first_entry_id(id: Seq<char>) -> bool {
    id == FIRST_ENTRY_IN_ROW_ITERATOR_ID@ || id == "first_entry_in_row"@
}

impl Clone for IteratorSetting {
    fn clone(&self) -> (r: Self)
        ensures
            r.model() == self.model(),
            r.options.pairs() == self.options.pairs(),
    {
        IteratorSetting {
            priority: self.priority,
            name: self.name.clone(),
            iterator_id: self.iterator_id.clone(),
            options: self.options.clone(),
        }
    }
}

// ---------------------------------------------------------------------------
// Writing settings into a configuration
// ---------------------------------------------------------------------------

/// The configuration after the first `n` options of iterator `i` are written.
pub open spec fn options_written(
    m: Map<Seq<char>, Seq<char>>,
    i: int,
    opts: Seq<EntryText>,
    n: nat,
) -> Map<Seq<char>, Seq<char>>
    decreases n,
{
    if n == 0 {
        m
    } else {
        let j = n - 1;
        options_written(m, i, opts, (n - 1) as nat).insert(
            iterator_key_spec(ITERATOR_SETTINGS_OPTIONS_KEY@, i, Some(j)),
            opts[j].0,
        ).insert(iterator_key_spec(ITERATOR_SETTINGS_OPTIONS_VALUE@, i, Some(j)), opts[j].1)
    }
}

/// The configuration after setting `it` is written as iterator `i`.
pub open spec fn setting_written(m: Map<Seq<char>, Seq<char>>, i: int, it: IteratorSetting) -> Map<
    Seq<char>,
    Seq<char>,
> {
    let opts = it.options.pairs();
    let m1 = m.insert(iterator_key_spec(ITERATOR_SETTINGS_NAME@, i, None), it.name@).insert(
        iterator_key_spec(ITERATOR_SETTINGS_KIND@, i, None),
        it.iterator_id@,
    ).insert(
        iterator_key_spec(ITERATOR_SETTINGS_PRIORITY@, i, None),
        signed_decimal(it.priority as int),
    ).insert(iterator_key_spec(ITERATOR_SETTINGS_OPTIONS_SIZE@, i, None), decimal(opts.len()));
    options_written(m1, i, opts, opts.len())
}

/// The configuration after the first `n` settings are written.
pub open spec fn settings_written(
    m: Map<Seq<char>, Seq<char>>,
    its: Seq<IteratorSetting>,
    n: nat,
) -> Map<Seq<char>, Seq<char>>
    decreases n,
{
    if n == 0 {
        m
    } else {
        setting_written(settings_written(m, its, (n - 1) as nat), n - 1, its[n - 1])
    }
}

// ---------------------------------------------------------------------------
// Reading settings back
// ---------------------------------------------------------------------------

/// The text of a failed integer parse.
pub open spec fn err_text(o: Option<Seq<char>>) -> Seq<char> {
    match o {
        Some(t) => t,
        None => Seq::empty(),
    }
}

/// The options of iterator `i` read from the configuration, first `n` of them.
pub open spec fn read_options(m: Map<Seq<char>, Seq<char>>, i: int, n: nat) -> Result<
    Map<Seq<char>, Seq<char>>,
    Seq<char>,
>
    decreases n,
{
    if n == 0 {
        Ok(Map::empty())
    } else {
        match read_options(m, i, (n - 1) as nat) {
            Err(e) => Err(e),
            Ok(acc) => {
                let j = n - 1;
                let k = iterator_key_spec(ITERATOR_SETTINGS_OPTIONS_KEY@, i, Some(j));
                let v = iterator_key_spec(ITERATOR_SETTINGS_OPTIONS_VALUE@, i, Some(j));
                if !m.contains_key(k) {
                    Err("Missing iterator option key at index "@ + decimal(i as nat) + "."@
                        + decimal(j as nat))
                } else if !m.contains_key(v) {
                    Err("Missing iterator option value at index "@ + decimal(i as nat) + "."@
                        + decimal(j as nat))
                } else {
                    Ok(acc.insert(m[k], m[v]))
                }
            },
        }
    }
}

/// Iterator setting `i` read from the configuration.
pub open spec fn read_setting(m: Map<Seq<char>, Seq<char>>, i: int) -> Result<
    IteratorSettingModel,
    Seq<char>,
> {
    let nk = iterator_key_spec(ITERATOR_SETTINGS_NAME@, i, None);
    let kk = iterator_key_spec(ITERATOR_SETTINGS_KIND@, i, None);
    let pk = iterator_key_spec(ITERATOR_SETTINGS_PRIORITY@, i, None);
    let ok = iterator_key_spec(ITERATOR_SETTINGS_OPTIONS_SIZE@, i, None);
    let at = decimal(i as nat);
    if !m.contains_key(nk) {
        Err("Missing iterator name at index "@ + at)
    } else if !m.contains_key(kk) {
        Err("Missing iterator class at index "@ + at)
    } else if !m.contains_key(pk) {
        Err("Missing iterator priority at index "@ + at)
    } else {
        match parse_in_range(parse_signed_spec(m[pk]), i32::MIN as int, i32::MAX as int) {
            None => Err("Invalid iterator priority at index "@ + at + ": "@ + err_text(
                int_parse_error(m[pk], true, i32::MIN as int, i32::MAX as int),
            )),
            Some(p) => if !m.contains_key(ok) {
                Err("Missing iterator option count at index "@ + at)
            } else {
                match parse_in_range(parse_unsigned_spec(m[ok]), 0, usize::MAX as int) {
                    None => Err("Invalid iterator option count at index "@ + at + ": "@ + err_text(
                        int_parse_error(m[ok], false, 0, usize::MAX as int),
                    )),
                    Some(n) => match read_options(m, i, n as nat) {
                        Err(e) => Err(e),
                        Ok(opts) => Ok(
                            IteratorSettingModel {
                                priority: p,
                                name: m[nk],
                                iterator_id: m[kk],
                                options: opts,
                            },
                        ),
                    },
                }
            },
        }
    }
}

/// The first `n` iterator settings read from the configuration.
pub open spec fn read_settings(m: Map<Seq<char>, Seq<char>>, n: nat) -> Result<
    Seq<IteratorSettingModel>,
    Seq<char>,
>
    decreases n,
{
    if n == 0 {
        Ok(Seq::empty())
    } else {
        match read_settings(m, (n - 1) as nat) {
            Err(e) => Err(e),
            Ok(acc) => match read_setting(m, n - 1) {
                Err(e) => Err(e),
                Ok(s) => Ok(acc.push(s)),
            },
        }
    }
}

/// The iterator settings that a configuration holds.
pub open spec fn additional_iterators_spec(m: Map<Seq<char>, Seq<char>>) -> Result<
    Seq<IteratorSettingModel>,
    Seq<char>,
> {
    let size_text = if m.contains_key(ITERATOR_SETTINGS_SIZE@) {
        m[ITERATOR_SETTINGS_SIZE@]
    } else {
        "0"@
    };
    match parse_in_range(parse_unsigned_spec(size_text), 0, usize::MAX as int) {
        None => Err("Invalid ac.iterators.size: "@ + err_text(
            int_parse_error(size_text, false, 0, usize::MAX as int),
        )),
        Some(n) => read_settings(m, n as nat),
    }
}

pub open spec fn setting_models(s: Seq<IteratorSetting>) -> Seq<IteratorSettingModel> {
    s.map_values(|it: IteratorSetting| it.model())
}


impl FjallRdfConfiguration {
    /// Writes the settings under the iterator keys: their count, and for each its name,
    /// kind, priority, option count and options in order of key.
    pub fn set_additional_iterators(&mut self, iterators: &[IteratorSetting])
        ensures
            final(self).map() == settings_written(
                old(self).map().insert(ITERATOR_SETTINGS_SIZE@, decimal(iterators@.len())),
                iterators@,
                iterators@.len(),
            ),
    {
        let size = u64_to_string(iterators.len() as u64);
        self.set(ITERATOR_SETTINGS_SIZE, size.as_str());
        let ghost m0 = self.map();
        let mut i: usize = 0;
        while i < iterators.len()
            invariant
                i <= iterators.len(),
                self.map() == settings_written(m0, iterators@, i as nat),
            decreases iterators.len() - i,
        {
            let it = &iterators[i];
            let ghost before = self.map();
            self.set(iterator_key(ITERATOR_SETTINGS_NAME, i, None).as_str(), it.name.as_str());
            self.set(iterator_key(ITERATOR_SETTINGS_KIND, i, None).as_str(), it.iterator_id.as_str());
            let prio = i64_to_string(it.priority as i64);
            self.set(iterator_key(ITERATOR_SETTINGS_PRIORITY, i, None).as_str(), prio.as_str());
            let count = u64_to_string(it.options.len() as u64);
            self.set(iterator_key(ITERATOR_SETTINGS_OPTIONS_SIZE, i, None).as_str(), count.as_str());
            let ghost m1 = self.map();
            let mut j: usize = 0;
            while j < it.options.len()
                invariant
                    j <= it.options.pairs().len(),
                    self.map() == options_written(m1, i as int, it.options.pairs(), j as nat),
                decreases it.options.pairs().len() - j,
            {
                let (k, v) = it.options.entry(j);
                self.set(iterator_key(ITERATOR_SETTINGS_OPTIONS_KEY, i, Some(j)).as_str(), k.as_str());
                self.set(iterator_key(ITERATOR_SETTINGS_OPTIONS_VALUE, i, Some(j)).as_str(), v.as_str());
                j = j + 1;
            }
            assert(self.map() == setting_written(before, i as int, iterators@[i as int]));
            i = i + 1;
        }
    }

    /// Reads back the iterator settings: an absent count is zero; a missing or unparsable
    /// part is an error that names it.
    pub fn get_additional_iterators(&self) -> (r: Result<Vec<IteratorSetting>, String>)
        ensures
            match additional_iterators_spec(self.map()) {
                Ok(models) => r matches Ok(v) && setting_models(v@) == models,
                Err(e) => r matches Err(x) && x@ == e,
            },
    {
        let ghost m = self.map();
        let size_text: &str = match self.get(ITERATOR_SETTINGS_SIZE) {
            Some(t) => t.as_str(),
            None => "0",
        };
        let size = match parse_usize_text(size_text) {
            Ok(n) => n,
            Err(e) => {
                return Err(concat("Invalid ac.iterators.size: ", e.as_str()));
            },
        };
        let mut settings: Vec<IteratorSetting> = Vec::new();
        let mut i: usize = 0;
        assert(setting_models(settings@) =~= Seq::<IteratorSettingModel>::empty());
        while i < size
            invariant
                i <= size,
                m == self.map(),
                additional_iterators_spec(m) == read_settings(m, size as nat),
                read_settings(m, i as nat) == Ok::<Seq<IteratorSettingModel>, Seq<char>>(
                    setting_models(settings@),
                ),
            decreases size - i,
        {
            match self.read_setting_at(i) {
                Ok(s) => {
                    let ghost before = settings@;
                    settings.push(s);
                    assert(setting_models(settings@) =~= setting_models(before).push(
                        settings@.last().model(),
                    ));
                },
                Err(e) => {
                    proof {
                        lemma_read_settings_err(m, i as nat, size as nat);
                    }
                    return Err(e);
                },
            }
            i = i + 1;
        }
        Ok(settings)
    }

    fn read_setting_at(&self, i: usize) -> (r: Result<IteratorSetting, String>)
        ensures
            match read_setting(self.map(), i as int) {
                Ok(model) => r matches Ok(s) && s.model() == model,
                Err(e) => r matches Err(x) && x@ == e,
            },
    {
        let at = u64_to_string(i as u64);
        let name = match self.get(iterator_key(ITERATOR_SETTINGS_NAME, i, None).as_str()) {
            Some(v) => v.clone(),
            None => {
                return Err(concat("Missing iterator name at index ", at.as_str()));
            },
        };
        let iterator_id = match self.get(iterator_key(ITERATOR_SETTINGS_KIND, i, None).as_str()) {
            Some(v) => v.clone(),
            None => {
                return Err(concat("Missing iterator class at index ", at.as_str()));
            },
        };
        let prio_text = match self.get(iterator_key(ITERATOR_SETTINGS_PRIORITY, i, None).as_str()) {
            Some(v) => v,
            None => {
                return Err(concat("Missing iterator priority at index ", at.as_str()));
            },
        };
        let priority = match parse_i32_text(prio_text.as_str()) {
            Ok(p) => p,
            Err(e) => {
                let mut msg = concat("Invalid iterator priority at index ", at.as_str());
                push_str(&mut msg, ": ");
                push_str(&mut msg, e.as_str());
                return Err(msg);
            },
        };
        let count_text = match self.get(iterator_key(ITERATOR_SETTINGS_OPTIONS_SIZE, i, None).as_str()) {
            Some(v) => v,
            None => {
                return Err(concat("Missing iterator option count at index ", at.as_str()));
            },
        };
        let count = match parse_usize_text(count_text.as_str()) {
            Ok(n) => n,
            Err(e) => {
                let mut msg = concat("Invalid iterator option count at index ", at.as_str());
                push_str(&mut msg, ": ");
                push_str(&mut msg, e.as_str());
                return Err(msg);
            },
        };
        let mut options = StrMap::new();
        let mut j: usize = 0;
        let ghost whole = match read_options(self.map(), i as int, count as nat) {
            Err(e) => Err(e),
            Ok(opts) => Ok(
                IteratorSettingModel {
                    priority: priority as int,
                    name: name@,
                    iterator_id: iterator_id@,
                    options: opts,
                },
            ),
        };
        assert(read_setting(self.map(), i as int) == whole);
        while j < count
            invariant
                j <= count,
                read_setting(self.map(), i as int) == whole,
                whole == match read_options(self.map(), i as int, count as nat) {
                    Err(e) => Err(e),
                    Ok(opts) => Ok(
                        IteratorSettingModel {
                            priority: priority as int,
                            name: name@,
                            iterator_id: iterator_id@,
                            options: opts,
                        },
                    ),
                },
                read_options(self.map(), i as int, j as nat) == Ok::<Map<Seq<char>, Seq<char>>, Seq<char>>(
                    options@,
                ),
                at@ == decimal(i as nat),
            decreases count - j,
        {
            let key = match self.get(iterator_key(ITERATOR_SETTINGS_OPTIONS_KEY, i, Some(j)).as_str()) {
                Some(v) => v.clone(),
                None => {
                    let mut msg = concat("Missing iterator option key at index ", at.as_str());
                    push_str(&mut msg, ".");
                    push_str(&mut msg, u64_to_string(j as u64).as_str());
                    proof {
                        assert(msg@ == "Missing iterator option key at index "@ + decimal(i as nat) + "."@ + decimal(j as nat));
                        assert(read_options(self.map(), i as int, (j + 1) as nat) == Err::<Map<Seq<char>, Seq<char>>, Seq<char>>(msg@));
                        lemma_read_options_err(self.map(), i as int, (j + 1) as nat, count as nat);
                    }
                    return Err(msg);
                },
            };
            let value = match self.get(iterator_key(ITERATOR_SETTINGS_OPTIONS_VALUE, i, Some(j)).as_str()) {
                Some(v) => v.clone(),
                None => {
                    let mut msg = concat("Missing iterator option value at index ", at.as_str());
                    push_str(&mut msg, ".");
                    push_str(&mut msg, u64_to_string(j as u64).as_str());
                    proof {
                        lemma_read_options_err(self.map(), i as int, (j + 1) as nat, count as nat);
                    }
                    return Err(msg);
                },
            };
            options.insert(key, value);
            j = j + 1;
        }
        Ok(IteratorSetting { priority, name, iterator_id, options })
    }
}

/// Once reading the first `n` options fails, reading more fails with the same error.
proof fn lemma_read_options_err(m: Map<Seq<char>, Seq<char>>, i: int, n: nat, total: nat)
    requires
        n <= total,
        read_options(m, i, n) is Err,
    ensures
        read_options(m, i, total) == read_options(m, i, n),
    decreases total - n,
{
    if n < total {
        lemma_read_options_err(m, i, n, (total - 1) as nat);
    }
}

/// Once reading the first `n + 1` settings fails, reading more fails with the same error.
proof fn lemma_read_settings_err(m: Map<Seq<char>, Seq<char>>, n: nat, total: nat)
    requires
        n < total,
        read_settings(m, n) is Ok,
        read_setting(m, n as int) is Err,
    ensures
        read_settings(m, total) == Err::<Seq<IteratorSettingModel>, Seq<char>>(
            read_setting(m, n as int)->Err_0,
        ),
    decreases total - n,
{
    if n + 1 < total {
        lemma_read_settings_err(m, n, (total - 1) as nat);
    }
}

} // verus!
