//! The cosmetic catalogue: item definitions keyed by id, gradient sets, and the
//! rules that pick a variant, a colour, a model, a texture and a tint for an item.
use crate::table::NamedTable;
use crate::text::{has_substring, str_contains, str_eq};
use vstd::prelude::*;

verus! {

/// A texture that belongs to one colour of an item, with the colours it was
/// painted from.
#[derive(Clone, Debug)]
pub struct TextureVariant {
    pub texture: String,
    pub base_color: Option<Vec<String>>,
}

/// A variant of an item (another cut, another model).
#[derive(Clone, Debug)]
pub struct CosmeticVariant {
    pub model: Option<String>,
    pub greyscale_texture: Option<String>,
    pub textures: Option<NamedTable<TextureVariant>>,
}

/// One colour of a gradient set: a gradient image, or the colours to build one from.
#[derive(Clone, Debug)]
pub struct GradientDefinition {
    pub base_color: Option<Vec<String>>,
    pub texture: Option<String>,
}

/// A named family of colours (hair colours, cotton colours, ...).
#[derive(Clone, Debug)]
pub struct GradientSet {
    pub id: Option<String>,
    pub gradients: NamedTable<GradientDefinition>,
}

/// One item of the catalogue.
#[derive(Clone, Debug)]
pub struct CosmeticDefinition {
    pub hair_type: Option<String>,
    pub requires_generic_haircut: Option<bool>,
    pub id: String,
    pub name: Option<String>,
    pub model: Option<String>,
    pub greyscale_texture: Option<String>,
    pub gradient_set: Option<String>,
    pub variants: Option<NamedTable<CosmeticVariant>>,
    /// Textures by colour name, for items painted in fixed colours.
    pub textures: Option<NamedTable<TextureVariant>>,
    /// `Simple`, `HalfCovering` or `FullyCovering`, for head accessories.
    pub head_accessory_type: Option<String>,
    /// A character part category that this item hides (`Haircut`).
    pub disable_character_part_category: Option<String>,
}

pub open spec fn opt_table_wf<V>(t: Option<NamedTable<V>>) -> bool {
    t matches Some(m) ==> m.wf()
}

impl CosmeticVariant {
    pub open spec fn wf(&self) -> bool {
        opt_table_wf(self.textures)
    }
}

impl GradientSet {
    pub open spec fn wf(&self) -> bool {
        self.gradients.wf()
    }
}

impl CosmeticDefinition {
    /// Every table inside the definition has unique keys.
    pub open spec fn wf(&self) -> bool {
        &&& opt_table_wf(self.textures)
        &&& self.variants matches Some(vs) ==> {
            &&& vs.wf()
            &&& forall|i: int| 0 <= i < vs.entries@.len() ==> #[trigger] vs.entries@[i].1.wf()
        }
    }
}

/// A table of definitions whose keys are unique and whose definitions are well formed.
pub open spec fn defs_wf(t: NamedTable<CosmeticDefinition>) -> bool {
    &&& t.wf()
    &&& forall|i: int| 0 <= i < t.entries@.len() ==> #[trigger] t.entries@[i].1.wf()
}

/// A table of gradient sets whose keys are unique and whose sets are well formed.
pub open spec fn sets_wf(t: NamedTable<GradientSet>) -> bool {
    &&& t.wf()
    &&& forall|i: int| 0 <= i < t.entries@.len() ==> #[trigger] t.entries@[i].1.wf()
}

/// The whole catalogue, one table per category.
#[derive(Clone, Debug)]
pub struct CosmeticRegistry {
    pub faces: NamedTable<CosmeticDefinition>,
    pub eyes: NamedTable<CosmeticDefinition>,
    pub eyebrows: NamedTable<CosmeticDefinition>,
    pub mouths: NamedTable<CosmeticDefinition>,
    pub ears: NamedTable<CosmeticDefinition>,
    pub haircuts: NamedTable<CosmeticDefinition>,
    pub facial_hair: NamedTable<CosmeticDefinition>,
    pub underwear: NamedTable<CosmeticDefinition>,
    pub face_accessories: NamedTable<CosmeticDefinition>,
    pub capes: NamedTable<CosmeticDefinition>,
    pub ear_accessories: NamedTable<CosmeticDefinition>,
    pub gloves: NamedTable<CosmeticDefinition>,
    pub head_accessories: NamedTable<CosmeticDefinition>,
    pub gradient_sets: NamedTable<GradientSet>,
    pub overpants: NamedTable<CosmeticDefinition>,
    pub overtops: NamedTable<CosmeticDefinition>,
    pub pants: NamedTable<CosmeticDefinition>,
    pub shoes: NamedTable<CosmeticDefinition>,
    pub undertops: NamedTable<CosmeticDefinition>,
}

/// A cosmetic id names an item unless it is empty or the literal `null`.
pub fn is_valid_cosmetic_id(id: &str) -> (r: bool)
    ensures
        r == (id@.len() > 0 && id@ != "null"@),
{
    let n = id.unicode_len();
    if n == 0 {
        return false;
    }
    !str_eq(id, "null")
}

/// A table of definitions keyed by their ids; a later definition with the same
/// id replaces an earlier one.
pub open spec fn defs_table_has(defs: Seq<CosmeticDefinition>, k: Seq<char>) -> bool {
    exists|i: int| 0 <= i < defs.len() && #[trigger] defs[i].id@ == k
}

/// Key each definition by its id; of several with one id the last one counts.
pub fn table_from_definitions(defs: Vec<CosmeticDefinition>) -> (t: NamedTable<CosmeticDefinition>)
    requires
        forall|i: int| 0 <= i < defs@.len() ==> #[trigger] defs@[i].wf(),
    ensures
        defs_wf(t),
        forall|k: Seq<char>| #[trigger] t.has_key(k) <==> defs_table_has(defs@, k),
        forall|i: int|
            0 <= i < defs@.len() && (forall|j: int| i < j < defs@.len() ==> #[trigger] defs@[j].id@
                != defs@[i].id@) ==> t.value_of(#[trigger] defs@[i].id@) == defs@[i],
{
    let ghost all = defs@;
    let mut rest = defs;
    let mut t: NamedTable<CosmeticDefinition> = NamedTable::new();
    while rest.len() > 0
        invariant
            rest@ == all.subrange(0, rest@.len() as int),
            rest@.len() <= all.len(),
            forall|i: int| 0 <= i < all.len() ==> #[trigger] all[i].wf(),
            defs_wf(t),
            forall|k: Seq<char>| #[trigger]
                t.has_key(k) <==> (exists|i: int|
                    rest@.len() <= i < all.len() && #[trigger] all[i].id@ == k),
            forall|i: int|
                rest@.len() <= i < all.len() && (forall|j: int| i < j < all.len() ==> #[trigger] all[j].id@
                    != all[i].id@) ==> t.value_of(#[trigger] all[i].id@) == all[i],
        decreases rest@.len(),
    {
        let ghost m = rest@.len() - 1;
        let d = rest.pop().unwrap();
        proof {
            assert(rest@ =~= all.subrange(0, m));
            assert(d == all[m]);
        }
        if !t.contains_key(d.id.as_str()) {
            let ghost before = t;
            let ghost dv = d;
            let key = d.id.clone();
            t.insert(key, d);
            proof {
                assert forall|i: int| 0 <= i < t.entries@.len() implies #[trigger] t.entries@[i].1.wf() by {
                    let k = t.key(i);
                    t.lemma_index_of(i);
                    if k != dv.id@ {
                        let j = before.index_of(k);
                        before.lemma_index_of(j);
                    }
                }
                assert forall|k: Seq<char>| #[trigger]
                    t.has_key(k) <==> (exists|i: int| m <= i < all.len() && #[trigger] all[i].id@ == k) by {
                    if k == dv.id@ {
                        assert(all[m].id@ == k);
                    }
                    if exists|i: int| m <= i < all.len() && #[trigger] all[i].id@ == k {
                        let i = choose|i: int| m <= i < all.len() && #[trigger] all[i].id@ == k;
                        if i != m {
                            assert(before.has_key(k));
                        }
                    }
                }
                assert forall|i: int|
                    m <= i < all.len() && (forall|j: int| i < j < all.len() ==> #[trigger] all[j].id@
                        != all[i].id@) implies t.value_of(#[trigger] all[i].id@) == all[i] by {
                    if i != m {
                        assert(before.has_key(all[i].id@));
                        if all[i].id@ == dv.id@ {
                            assert(false);
                        }
                    }
                }
            }
        } else {
            proof {
                assert forall|k: Seq<char>| #[trigger]
                    t.has_key(k) <==> (exists|i: int| m <= i < all.len() && #[trigger] all[i].id@ == k) by {
                    if exists|i: int| m <= i < all.len() && #[trigger] all[i].id@ == k {
                        let i = choose|i: int| m <= i < all.len() && #[trigger] all[i].id@ == k;
                        if i == m {
                            assert(t.has_key(k));
                        }
                    }
                }
                assert forall|i: int|
                    m <= i < all.len() && (forall|j: int| i < j < all.len() ==> #[trigger] all[j].id@
                        != all[i].id@) implies t.value_of(#[trigger] all[i].id@) == all[i] by {
                    if i == m {
                        let j = choose|j: int| m + 1 <= j < all.len() && #[trigger] all[j].id@ == all[m].id@;
                        assert(all[j].id@ != all[m].id@);
                    }
                }
            }
        }
    }
    proof {
        assert forall|k: Seq<char>| #[trigger] t.has_key(k) <==> defs_table_has(all, k) by {}
    }
    t
}

/// Gradient set `i` carries the id `k`.
pub open spec fn set_id_is(sets: Seq<GradientSet>, i: int, k: Seq<char>) -> bool {
    opt_view(sets[i].id) == Some(k)
}

/// Key the gradient sets that carry an id by that id (the last one of several
/// with one id counts); sets without an id are dropped.
pub fn table_from_gradient_sets(sets: Vec<GradientSet>) -> (t: NamedTable<GradientSet>)
    requires
        forall|i: int| 0 <= i < sets@.len() ==> #[trigger] sets@[i].wf(),
    ensures
        sets_wf(t),
        forall|k: Seq<char>| #[trigger]
            t.has_key(k) <==> exists|i: int| 0 <= i < sets@.len() && #[trigger] set_id_is(sets@, i, k),
{
    let ghost all = sets@;
    let mut rest = sets;
    let mut t: NamedTable<GradientSet> = NamedTable::new();
    while rest.len() > 0
        invariant
            rest@ == all.subrange(0, rest@.len() as int),
            rest@.len() <= all.len(),
            forall|i: int| 0 <= i < all.len() ==> #[trigger] all[i].wf(),
            sets_wf(t),
            forall|k: Seq<char>| #[trigger]
                t.has_key(k) <==> (exists|i: int|
                    rest@.len() <= i < all.len() && #[trigger] set_id_is(all, i, k)),
        decreases rest@.len(),
    {
        let ghost m = rest@.len() - 1;
        let s = rest.pop().unwrap();
        proof {
            assert(rest@ =~= all.subrange(0, m));
            assert(s == all[m]);
        }
        let key = match &s.id {
            Some(id) => Some(id.clone()),
            None => None,
        };
        match key {
            Some(key) => {
                if !t.contains_key(key.as_str()) {
                    let ghost before = t;
                    let ghost kv = key@;
                    t.insert(key, s);
                    proof {
                        assert forall|i: int| 0 <= i < t.entries@.len() implies #[trigger] t.entries@[i].1.wf() by {
                            let k = t.key(i);
                            t.lemma_index_of(i);
                            if k != kv {
                                let j = before.index_of(k);
                                before.lemma_index_of(j);
                            }
                        }
                        assert forall|k: Seq<char>| #[trigger]
                            t.has_key(k) <==> (exists|i: int| m <= i < all.len() && #[trigger] set_id_is(all, i, k)) by {
                            if k == kv {
                                assert(set_id_is(all, m, k));
                            }
                            if exists|i: int| m <= i < all.len() && #[trigger] set_id_is(all, i, k) {
                                let i = choose|i: int| m <= i < all.len() && #[trigger] set_id_is(all, i, k);
                                if i != m {
                                    assert(before.has_key(k));
                                }
                            }
                        }
                    }
                } else {
                    proof {
                        assert forall|k: Seq<char>| #[trigger]
                            t.has_key(k) <==> (exists|i: int| m <= i < all.len() && #[trigger] set_id_is(all, i, k)) by {
                            if exists|i: int| m <= i < all.len() && #[trigger] set_id_is(all, i, k) {
                                let i = choose|i: int| m <= i < all.len() && #[trigger] set_id_is(all, i, k);
                                if i == m {
                                    assert(t.has_key(k));
                                }
                            }
                        }
                    }
                }
            },
            None => {
                proof {
                    assert forall|k: Seq<char>| #[trigger]
                        t.has_key(k) <==> (exists|i: int| m <= i < all.len() && #[trigger] set_id_is(all, i, k)) by {
                        if exists|i: int| m <= i < all.len() && #[trigger] set_id_is(all, i, k) {
                            let i = choose|i: int| m <= i < all.len() && #[trigger] set_id_is(all, i, k);
                            assert(i != m);
                        }
                    }
                }
            },
        }
    }
    t
}

pub open spec fn opt_view(o: Option<String>) -> Option<Seq<char>> {
    match o {
        Some(s) => Some(s@),
        None => None,
    }
}

pub fn clone_opt_string(o: &Option<String>) -> (r: Option<String>)
    ensures
        r == *o,
{
    match o {
        Some(s) => Some(s.clone()),
        None => None,
    }
}

pub fn clone_strings(v: &Vec<String>) -> (r: Vec<String>)
    ensures
        r@ == v@,
{
    let mut out: Vec<String> = Vec::new();
    let mut i: usize = 0;
    while i < v.len()
        invariant
            i <= v@.len(),
            out@ == v@.subrange(0, i as int),
        decreases v.len() - i,
    {
        out.push(v[i].clone());
        i = i + 1;
        proof {
            assert(out@ =~= v@.subrange(0, i as int));
        }
    }
    proof {
        assert(v@.subrange(0, v@.len() as int) =~= v@);
    }
    out
}

pub open spec fn opt_strings(o: Option<Vec<String>>) -> Option<Seq<String>> {
    match o {
        Some(v) => Some(v@),
        None => None,
    }
}

pub fn clone_opt_strings(o: &Option<Vec<String>>) -> (r: Option<Vec<String>>)
    ensures
        opt_strings(r) == opt_strings(*o),
{
    match o {
        Some(v) => Some(clone_strings(v)),
        None => None,
    }
}

impl CosmeticRegistry {
    /// Every table has unique keys and well-formed entries.
    pub open spec fn wf(&self) -> bool {
        &&& defs_wf(self.faces)
        &&& defs_wf(self.eyes)
        &&& defs_wf(self.eyebrows)
        &&& defs_wf(self.mouths)
        &&& defs_wf(self.ears)
        &&& defs_wf(self.haircuts)
        &&& defs_wf(self.facial_hair)
        &&& defs_wf(self.underwear)
        &&& defs_wf(self.face_accessories)
        &&& defs_wf(self.capes)
        &&& defs_wf(self.ear_accessories)
        &&& defs_wf(self.gloves)
        &&& defs_wf(self.head_accessories)
        &&& sets_wf(self.gradient_sets)
        &&& defs_wf(self.overpants)
        &&& defs_wf(self.overtops)
        &&& defs_wf(self.pants)
        &&& defs_wf(self.shoes)
        &&& defs_wf(self.undertops)
    }

    /// An empty catalogue.
    pub fn new() -> (r: CosmeticRegistry)
        ensures
            r.wf(),
            r.haircuts.entries@.len() == 0,
            r.faces.entries@.len() == 0,
            r.gradient_sets.entries@.len() == 0,
    {
        CosmeticRegistry {
            faces: NamedTable::new(),
            eyes: NamedTable::new(),
            eyebrows: NamedTable::new(),
            mouths: NamedTable::new(),
            ears: NamedTable::new(),
            haircuts: NamedTable::new(),
            facial_hair: NamedTable::new(),
            underwear: NamedTable::new(),
            face_accessories: NamedTable::new(),
            capes: NamedTable::new(),
            ear_accessories: NamedTable::new(),
            gloves: NamedTable::new(),
            head_accessories: NamedTable::new(),
            gradient_sets: NamedTable::new(),
            overpants: NamedTable::new(),
            overtops: NamedTable::new(),
            pants: NamedTable::new(),
            shoes: NamedTable::new(),
            undertops: NamedTable::new(),
        }
    }

    /// The haircut with the given id.
    pub fn get_haircut(&self, id: &str) -> (r: Option<&CosmeticDefinition>)
        requires
            self.wf(),
        ensures
            r is Some <==> self.haircuts.has_key(id@),
            r matches Some(d) ==> *d == self.haircuts.value_of(id@),
    {
        self.haircuts.get(id)
    }

    /// The face feature with the given id, looked up among faces, eyes, eyebrows,
    /// mouths and ears, in that order.
    pub fn get_face_feature(&self, id: &str) -> (r: Option<&CosmeticDefinition>)
        requires
            self.wf(),
        ensures
            r is Some <==> (self.faces.has_key(id@) || self.eyes.has_key(id@)
                || self.eyebrows.has_key(id@) || self.mouths.has_key(id@) || self.ears.has_key(
                id@,
            )),
            r matches Some(d) ==> *d == (if self.faces.has_key(id@) {
                self.faces.value_of(id@)
            } else if self.eyes.has_key(id@) {
                self.eyes.value_of(id@)
            } else if self.eyebrows.has_key(id@) {
                self.eyebrows.value_of(id@)
            } else if self.mouths.has_key(id@) {
                self.mouths.value_of(id@)
            } else {
                self.ears.value_of(id@)
            }),
    {
        match self.faces.get(id) {
            Some(d) => Some(d),
            None => match self.eyes.get(id) {
                Some(d) => Some(d),
                None => match self.eyebrows.get(id) {
                    Some(d) => Some(d),
                    None => match self.mouths.get(id) {
                        Some(d) => Some(d),
                        None => self.ears.get(id),
                    },
                },
            },
        }
    }
}

/// Body-part names that hair rules never touch.
pub open spec fn is_excluded_part(n: Seq<char>) -> bool {
    has_substring(n, "Eye"@) || has_substring(n, "Arm"@) || has_substring(n, "Leg"@)
        || has_substring(n, "Pelvis"@) || has_substring(n, "Chest"@) || has_substring(n, "Belly"@)
        || has_substring(n, "Thigh"@) || has_substring(n, "Neck"@)
}

pub open spec fn has_hair_word(n: Seq<char>) -> bool {
    has_substring(n, "Hair"@) || has_substring(n, "hair"@) || has_substring(n, "Bangs"@)
        || has_substring(n, "bangs"@) || has_substring(n, "Bun"@) || has_substring(n, "Puff"@)
}

pub open spec fn has_hair_part_word(n: Seq<char>) -> bool {
    has_substring(n, "Top"@) || has_substring(n, "Side"@) || has_substring(n, "Front"@)
        || has_substring(n, "Back"@) || has_substring(n, "Strand"@) || has_substring(n, "Corner"@)
        || has_substring(n, "Long"@) || has_substring(n, "Afro"@) || has_substring(n, "Curl"@)
        || has_substring(n, "Wave"@)
}

/// A node belongs to a hair model when its name is no excluded body part and
/// holds a hair word or a common hair-part word.
pub open spec fn is_hair_name(n: Seq<char>) -> bool {
    !is_excluded_part(n) && (has_hair_word(n) || has_hair_part_word(n))
}

fn contains_any(name: &str, pats: &Vec<&str>) -> (r: bool)
    ensures
        r == exists|i: int| 0 <= i < pats@.len() && has_substring(name@, #[trigger] pats@[i]@),
{
    let mut i: usize = 0;
    while i < pats.len()
        invariant
            i <= pats@.len(),
            forall|j: int| 0 <= j < i ==> !has_substring(name@, #[trigger] pats@[j]@),
        decreases pats.len() - i,
    {
        if str_contains(name, pats[i]) {
            return true;
        }
        i = i + 1;
    }
    false
}

/// Whether a node name belongs to a hair cosmetic (its main nodes or their
/// usual child parts).
pub fn is_hair_node(node_name: &str) -> (r: bool)
    ensures
        r == is_hair_name(node_name@),
{
    let exclusions: Vec<&str> = vec!["Eye", "Arm", "Leg", "Pelvis", "Chest", "Belly", "Thigh", "Neck"];
    if contains_any(node_name, &exclusions) {
        proof {
            let i = choose|i: int|
                0 <= i < exclusions@.len() && has_substring(node_name@, #[trigger] exclusions@[i]@);
            assert(is_excluded_part(node_name@));
        }
        return false;
    }
    proof {
        assert forall|i: int| 0 <= i < exclusions@.len() implies !has_substring(
            node_name@,
            #[trigger] exclusions@[i]@,
        ) by {}
        assert(!has_substring(node_name@, exclusions@[0]@));
        assert(!has_substring(node_name@, exclusions@[1]@));
        assert(!has_substring(node_name@, exclusions@[2]@));
        assert(!has_substring(node_name@, exclusions@[3]@));
        assert(!has_substring(node_name@, exclusions@[4]@));
        assert(!has_substring(node_name@, exclusions@[5]@));
        assert(!has_substring(node_name@, exclusions@[6]@));
        assert(!has_substring(node_name@, exclusions@[7]@));
    }
    let hair: Vec<&str> = vec!["Hair", "hair", "Bangs", "bangs", "Bun", "Puff"];
    if contains_any(node_name, &hair) {
        proof {
            let i = choose|i: int| 0 <= i < hair@.len() && has_substring(node_name@, #[trigger] hair@[i]@);
            assert(has_hair_word(node_name@));
        }
        return true;
    }
    proof {
        assert(!has_substring(node_name@, hair@[0]@));
        assert(!has_substring(node_name@, hair@[1]@));
        assert(!has_substring(node_name@, hair@[2]@));
        assert(!has_substring(node_name@, hair@[3]@));
        assert(!has_substring(node_name@, hair@[4]@));
        assert(!has_substring(node_name@, hair@[5]@));
    }
    let parts: Vec<&str> = vec![
        "Top", "Side", "Front", "Back", "Strand", "Corner", "Long", "Afro", "Curl", "Wave",
    ];
    let r = contains_any(node_name, &parts);
    proof {
        if r {
            let i = choose|i: int| 0 <= i < parts@.len() && has_substring(node_name@, #[trigger] parts@[i]@);
            assert(has_hair_part_word(node_name@));
        } else {
            assert(!has_substring(node_name@, parts@[0]@));
            assert(!has_substring(node_name@, parts@[1]@));
            assert(!has_substring(node_name@, parts@[2]@));
            assert(!has_substring(node_name@, parts@[3]@));
            assert(!has_substring(node_name@, parts@[4]@));
            assert(!has_substring(node_name@, parts@[5]@));
            assert(!has_substring(node_name@, parts@[6]@));
            assert(!has_substring(node_name@, parts@[7]@));
            assert(!has_substring(node_name@, parts@[8]@));
            assert(!has_substring(node_name@, parts@[9]@));
        }
    }
    r
}

} // verus!
