//! The function registry: for each optional receiver type, a mapping from
//! fully-qualified function name to the set of parameter counts its
//! overloads accept. Receiver types are opaque integer handles assigned by
//! the caller; `None` is the bucket of free functions, the only one that
//! document-local declarations can extend.
use vstd::prelude::*;

verus! {

/// One registered function: its fully-qualified name and the set of
/// parameter counts its overloads accept (kept without duplicates).
#[derive(Clone)]
pub struct FuncEntry {
    pub name: String,
    pub arities: Vec<usize>,
}

/// Mathematical image of a `FuncEntry`.
pub struct FuncEntryModel {
    pub name: Seq<char>,
    pub arities: Seq<usize>,
}

impl View for FuncEntry {
    type V = FuncEntryModel;

    open spec fn view(&self) -> FuncEntryModel {
        FuncEntryModel { name: self.name@, arities: self.arities@ }
    }
}

/// The functions sharing one receiver type.
#[derive(Clone)]
pub struct RegistryBucket {
    pub receiver: Option<u32>,
    pub funcs: Vec<FuncEntry>,
}

/// Mathematical image of a `RegistryBucket`.
pub struct BucketModel {
    pub receiver: Option<u32>,
    pub funcs: Seq<FuncEntryModel>,
}

impl View for RegistryBucket {
    type V = BucketModel;

    open spec fn view(&self) -> BucketModel {
        BucketModel { receiver: self.receiver, funcs: self.funcs@.map_values(|e: FuncEntry| e@) }
    }
}

/// Mathematical image of a `FunctionRegistry`: the buckets in insertion
/// order; lookups consult the first bucket whose receiver matches.
pub type RegModel = Seq<BucketModel>;

/// The registry itself.
#[derive(Clone)]
pub struct FunctionRegistry {
    pub buckets: Vec<RegistryBucket>,
}

impl View for FunctionRegistry {
    type V = RegModel;

    open spec fn view(&self) -> RegModel {
        self.buckets@.map_values(|b: RegistryBucket| b@)
    }
}

/// Adds an arity to an arity set, keeping the set free of duplicates.
pub open spec fn arities_insert(s: Seq<usize>, arity: usize) -> Seq<usize> {
    if s.contains(arity) {
        s
    } else {
        s.push(arity)
    }
}

/// Inserts `arity` under `name` in one bucket's entry list: the first
/// entry of that name gains the arity, or a fresh entry is appended.
pub open spec fn funcs_register(
    fs: Seq<FuncEntryModel>,
    name: Seq<char>,
    arity: usize,
) -> Seq<FuncEntryModel>
    decreases fs.len(),
{
    if fs.len() == 0 {
        seq![FuncEntryModel { name, arities: seq![arity] }]
    } else if fs[0].name == name {
        seq![FuncEntryModel { name: fs[0].name, arities: arities_insert(fs[0].arities, arity) }]
            + fs.skip(1)
    } else {
        seq![fs[0]] + funcs_register(fs.skip(1), name, arity)
    }
}

/// The arity set stored under `name` in one bucket, if any.
pub open spec fn funcs_lookup(fs: Seq<FuncEntryModel>, name: Seq<char>) -> Option<Seq<usize>>
    decreases fs.len(),
{
    if fs.len() == 0 {
        None
    } else if fs[0].name == name {
        Some(fs[0].arities)
    } else {
        funcs_lookup(fs.skip(1), name)
    }
}

/// Inserts `arity` under `name` in the first bucket keyed by `receiver`,
/// appending that bucket if no bucket has the receiver yet.
pub open spec fn reg_register(
    bs: RegModel,
    receiver: Option<u32>,
    name: Seq<char>,
    arity: usize,
) -> RegModel
    decreases bs.len(),
{
    if bs.len() == 0 {
        seq![BucketModel { receiver, funcs: funcs_register(Seq::empty(), name, arity) }]
    } else if bs[0].receiver == receiver {
        seq![BucketModel { receiver: bs[0].receiver, funcs: funcs_register(bs[0].funcs, name, arity) }]
            + bs.skip(1)
    } else {
        seq![bs[0]] + reg_register(bs.skip(1), receiver, name, arity)
    }
}

/// The arity set stored under `name` in the bucket keyed by `receiver`:
/// `None` when the receiver has no bucket or the bucket lacks the name.
pub open spec fn reg_lookup(bs: RegModel, receiver: Option<u32>, name: Seq<char>) -> Option<
    Seq<usize>,
>
    decreases bs.len(),
{
    if bs.len() == 0 {
        None
    } else if bs[0].receiver == receiver {
        funcs_lookup(bs[0].funcs, name)
    } else {
        reg_lookup(bs.skip(1), receiver, name)
    }
}

/// Whether two receiver handles denote the same bucket key.
fn receiver_eq(a: &Option<u32>, b: &Option<u32>) -> (r: bool)
    ensures
        r == (*a == *b),
{
    match (a, b) {
        (Option::None, Option::None) => true,
        (Option::Some(x), Option::Some(y)) => x == y,
        _ => false,
    }
}

/// Inserts an arity into one bucket's entries, exactly as `funcs_register`
/// states it.
#[verifier::loop_isolation(false)]
fn funcs_register_exec(funcs: &mut Vec<FuncEntry>, name: String, arity: usize)
    ensures
        final(funcs)@.map_values(|e: FuncEntry| e@) == funcs_register(
            old(funcs)@.map_values(|e: FuncEntry| e@),
            name@,
            arity,
        ),
{
    let ghost fs0 = funcs@.map_values(|e: FuncEntry| e@);
    let n = funcs.len();
    let mut i: usize = 0;
    assert(fs0.skip(0) =~= fs0);
    assert(fs0.take(0) + funcs_register(fs0, name@, arity) =~= funcs_register(fs0, name@, arity));
    while i < n
        invariant
            i <= n,
            n == funcs.len(),
            funcs@.map_values(|e: FuncEntry| e@) == fs0,
            funcs_register(fs0, name@, arity) == fs0.take(i as int) + funcs_register(
                fs0.skip(i as int),
                name@,
                arity,
            ),
            forall|k: int| 0 <= k < i ==> fs0[k].name != name@,
        decreases n - i,
    {
        assert(fs0[i as int] == funcs@[i as int]@);
        if funcs[i].name == name {
            assert(fs0.skip(i as int)[0] == fs0[i as int]);
            assert(fs0.skip(i as int).skip(1) =~= fs0.skip(i + 1));
            let mut entry = funcs.remove(i);
            let mut present = false;
            let m = entry.arities.len();
            let mut j: usize = 0;
            while j < m
                invariant
                    j <= m,
                    m == entry.arities.len(),
                    present == entry.arities@.take(j as int).contains(arity),
                decreases m - j,
            {
                if entry.arities[j] == arity {
                    present = true;
                }
                assert(entry.arities@.take(j + 1 as int).drop_last() == entry.arities@.take(
                    j as int,
                ));
                assert(entry.arities@.take(j + 1 as int).last() == entry.arities@[j as int]);
                j = j + 1;
            }
            assert(entry.arities@.take(m as int) =~= entry.arities@);
            if !present {
                entry.arities.push(arity);
            }
            assert(entry@.arities == arities_insert(fs0[i as int].arities, arity));
            funcs.insert(i, entry);
            assert(funcs_register(fs0.skip(i as int), name@, arity) == seq![
                FuncEntryModel {
                    name: fs0[i as int].name,
                    arities: arities_insert(fs0[i as int].arities, arity),
                },
            ] + fs0.skip(i + 1));
            assert(funcs@.map_values(|e: FuncEntry| e@) =~= fs0.take(i as int) + (seq![
                FuncEntryModel {
                    name: fs0[i as int].name,
                    arities: arities_insert(fs0[i as int].arities, arity),
                },
            ] + fs0.skip(i + 1)));
            return ;
        }
        assert(fs0.skip(i as int)[0] == fs0[i as int]);
        assert(fs0.skip(i as int).skip(1) =~= fs0.skip(i + 1));
        assert(fs0.take(i as int).push(fs0[i as int]) =~= fs0.take(i + 1));
        assert(fs0.take(i as int) + (seq![fs0[i as int]] + funcs_register(
            fs0.skip(i + 1),
            name@,
            arity,
        )) =~= fs0.take(i + 1) + funcs_register(fs0.skip(i + 1), name@, arity));
        i = i + 1;
    }
    assert(fs0.skip(n as int) =~= Seq::<FuncEntryModel>::empty());
    let mut arities: Vec<usize> = Vec::new();
    arities.push(arity);
    let entry = FuncEntry { name, arities };
    assert(entry@.arities =~= seq![arity]);
    funcs.push(entry);
    assert(funcs@.map_values(|e: FuncEntry| e@) =~= fs0.take(n as int) + funcs_register(
        fs0.skip(n as int),
        name@,
        arity,
    ));
}

impl FunctionRegistry {
    /// An empty registry: no receiver has a bucket yet.
    pub fn new() -> (r: Self)
        ensures
            r@ == Seq::<BucketModel>::empty(),
    {
        let r = FunctionRegistry { buckets: Vec::new() };
        assert(r@ =~= Seq::<BucketModel>::empty());
        r
    }

    /// Records that the function `name` (already fully qualified) accepts
    /// `arity` parameters on the given receiver.
    #[verifier::loop_isolation(false)]
    pub fn register(&mut self, receiver: Option<u32>, name: String, arity: usize)
        ensures
            final(self)@ == reg_register(old(self)@, receiver, name@, arity),
    {
        let ghost bs0 = self@;
        let n = self.buckets.len();
        let mut i: usize = 0;
        assert(bs0.skip(0) =~= bs0);
        assert(bs0.take(0) + reg_register(bs0, receiver, name@, arity) =~= reg_register(
            bs0,
            receiver,
            name@,
            arity,
        ));
        while i < n
            invariant
                i <= n,
                n == self.buckets.len(),
                self@ == bs0,
                reg_register(bs0, receiver, name@, arity) == bs0.take(i as int) + reg_register(
                    bs0.skip(i as int),
                    receiver,
                    name@,
                    arity,
                ),
                forall|k: int| 0 <= k < i ==> bs0[k].receiver != receiver,
            decreases n - i,
        {
            assert(bs0.skip(i as int)[0] == bs0[i as int]);
            assert(bs0[i as int] == self.buckets@[i as int]@);
            if receiver_eq(&self.buckets[i].receiver, &receiver) {
                assert(bs0.skip(i as int).skip(1) =~= bs0.skip(i + 1));
                let mut bucket = self.buckets.remove(i);
                funcs_register_exec(&mut bucket.funcs, name, arity);
                self.buckets.insert(i, bucket);
                assert(self@ =~= bs0.take(i as int) + (seq![
                    BucketModel {
                        receiver: bs0[i as int].receiver,
                        funcs: funcs_register(bs0[i as int].funcs, name@, arity),
                    },
                ] + bs0.skip(i + 1)));
                return ;
            }
            assert(bs0.skip(i as int).skip(1) =~= bs0.skip(i + 1));
            assert(bs0.take(i as int) + (seq![bs0[i as int]] + reg_register(
                bs0.skip(i + 1),
                receiver,
                name@,
                arity,
            )) =~= bs0.take(i + 1) + reg_register(bs0.skip(i + 1), receiver, name@, arity));
            i = i + 1;
        }
        assert(bs0.skip(n as int) =~= Seq::<BucketModel>::empty());
        let mut arities: Vec<usize> = Vec::new();
        arities.push(arity);
        let mut funcs: Vec<FuncEntry> = Vec::new();
        funcs.push(FuncEntry { name, arities });
        assert(funcs@.map_values(|e: FuncEntry| e@) =~= funcs_register(
            Seq::<FuncEntryModel>::empty(),
            name@,
            arity,
        ));
        self.buckets.push(RegistryBucket { receiver, funcs });
        assert(self@ =~= bs0.take(n as int) + reg_register(
            bs0.skip(n as int),
            receiver,
            name@,
            arity,
        ));
    }

    /// The arity set registered for the fully-qualified `name` under
    /// `receiver`, exactly as `reg_lookup` states it.
    #[verifier::loop_isolation(false)]
    pub fn lookup(&self, receiver: Option<u32>, name: &String) -> (r: Option<Vec<usize>>)
        ensures
            match r {
                Option::Some(v) => reg_lookup(self@, receiver, name@) == Some(v@),
                Option::None => reg_lookup(self@, receiver, name@) is None,
            },
    {
        let ghost bs0 = self@;
        let n = self.buckets.len();
        let mut i: usize = 0;
        assert(bs0.skip(0) =~= bs0);
        while i < n
            invariant
                i <= n,
                n == self.buckets.len(),
                self@ == bs0,
                reg_lookup(bs0, receiver, name@) == reg_lookup(bs0.skip(i as int), receiver, name@),
            decreases n - i,
        {
            assert(bs0.skip(i as int)[0] == bs0[i as int]);
            assert(bs0[i as int] == self.buckets@[i as int]@);
            if receiver_eq(&self.buckets[i].receiver, &receiver) {
                let bucket = &self.buckets[i];
                let ghost fs0 = bucket.funcs@.map_values(|e: FuncEntry| e@);
                assert(fs0 == bs0[i as int].funcs);
                let m = bucket.funcs.len();
                let mut j: usize = 0;
                assert(fs0.skip(0) =~= fs0);
                while j < m
                    invariant
                        j <= m,
                        m == bucket.funcs.len(),
                        fs0 == bucket.funcs@.map_values(|e: FuncEntry| e@),
                        funcs_lookup(fs0, name@) == funcs_lookup(fs0.skip(j as int), name@),
                    decreases m - j,
                {
                    assert(fs0.skip(j as int)[0] == fs0[j as int]);
                    assert(fs0[j as int] == bucket.funcs@[j as int]@);
                    if bucket.funcs[j].name == *name {
                        let mut out: Vec<usize> = Vec::new();
                        let arities = &bucket.funcs[j].arities;
                        let c = arities.len();
                        let mut k: usize = 0;
                        assert(out@ =~= arities@.take(0));
                        while k < c
                            invariant
                                k <= c,
                                c == arities.len(),
                                out@ == arities@.take(k as int),
                            decreases c - k,
                        {
                            out.push(arities[k]);
                            assert(out@ =~= arities@.take(k + 1));
                            k = k + 1;
                        }
                        assert(out@ =~= arities@);
                        return Some(out);
                    }
                    assert(fs0.skip(j as int).skip(1) =~= fs0.skip(j + 1));
                    j = j + 1;
                }
                assert(fs0.skip(m as int) =~= Seq::<FuncEntryModel>::empty());
                return None;
            }
            assert(bs0.skip(i as int).skip(1) =~= bs0.skip(i + 1));
            i = i + 1;
        }
        assert(bs0.skip(n as int) =~= Seq::<BucketModel>::empty());
        None
    }
}

} // verus!
