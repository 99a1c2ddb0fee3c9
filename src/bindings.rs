use vstd::prelude::*;

verus! {

/// The per-vertex inputs of the quad's shader.
#[derive(Clone, Copy, Debug, PartialEq, Eq, Structural)]
pub enum Attribute {
    Position,
    Color,
}

/// The per-draw constants of the quad's shader.
#[derive(Clone, Copy, Debug, PartialEq, Eq, Structural)]
pub enum Uniform {
    Projection,
    ModelView,
    Time,
}

/// The name under which the shader program declares an attribute.
pub open spec fn attribute_name(a: Attribute) -> Seq<char> {
    match a {
        Attribute::Position => "a_vertex_position"@,
        Attribute::Color => "a_vertex_color"@,
    }
}

/// The name of the buffer that feeds an attribute.
pub open spec fn buffer_name(a: Attribute) -> Seq<char> {
    match a {
        Attribute::Position => "vertices"@,
        Attribute::Color => "colors"@,
    }
}

/// How many floats make up one vertex of an attribute: 2-d positions, RGBA colors.
pub open spec fn component_count(a: Attribute) -> i32 {
    match a {
        Attribute::Position => 2,
        Attribute::Color => 4,
    }
}

/// The name under which the shader program declares a uniform.
pub open spec fn uniform_name(u: Uniform) -> Seq<char> {
    match u {
        Uniform::Projection => "u_projection_matrix"@,
        Uniform::ModelView => "u_model_view_matrix"@,
        Uniform::Time => "u_time"@,
    }
}

impl Attribute {
    pub fn name(&self) -> (r: &'static str)
        ensures
            r@ == attribute_name(*self),
    {
        match self {
            Attribute::Position => "a_vertex_position",
            Attribute::Color => "a_vertex_color",
        }
    }

    pub fn buffer_name(&self) -> (r: &'static str)
        ensures
            r@ == buffer_name(*self),
    {
        match self {
            Attribute::Position => "vertices",
            Attribute::Color => "colors",
        }
    }

    pub fn component_count(&self) -> (r: i32)
        ensures
            r == component_count(*self),
    {
        match self {
            Attribute::Position => 2,
            Attribute::Color => 4,
        }
    }
}

impl Uniform {
    pub fn name(&self) -> (r: &'static str)
        ensures
            r@ == uniform_name(*self),
    {
        match self {
            Uniform::Projection => "u_projection_matrix",
            Uniform::ModelView => "u_model_view_matrix",
            Uniform::Time => "u_time",
        }
    }
}

/// The keys of a name-keyed table, in order.
pub open spec fn keys_of<V>(entries: Seq<(String, V)>) -> Seq<Seq<char>> {
    entries.map_values(|e: (String, V)| e.0@)
}

/// `i` is the first position of `key` in `keys`.
pub open spec fn is_first_of(keys: Seq<Seq<char>>, key: Seq<char>, i: int) -> bool {
    &&& 0 <= i < keys.len()
    &&& keys[i] == key
    &&& forall|j: int| 0 <= j < i ==> keys[j] != key
}

/// Where a table answers a lookup of `key`: its first entry under that key, if any.
pub open spec fn lookup(keys: Seq<Seq<char>>, key: Seq<char>) -> Option<int> {
    if exists|i: int| 0 <= i < keys.len() && keys[i] == key {
        Some(choose|i: int| is_first_of(keys, key, i))
    } else {
        None
    }
}

/// The first entry under a key is unique, so `lookup` names it.
pub proof fn lemma_lookup_first(keys: Seq<Seq<char>>, key: Seq<char>, i: int)
    requires
        is_first_of(keys, key, i),
    ensures
        lookup(keys, key) == Some(i),
{
    assert(exists|k: int| is_first_of(keys, key, k));
    let c = choose|k: int| is_first_of(keys, key, k);
    if c < i {
        assert(keys[c] != key);
    } else if i < c {
        assert(keys[i] != key);
    }
}

/// A lookup that answers names an entry under the key.
pub proof fn lemma_lookup_found(keys: Seq<Seq<char>>, key: Seq<char>)
    ensures
        lookup(keys, key) matches Some(i) ==> is_first_of(keys, key, i),
{
    if exists|i: int| 0 <= i < keys.len() && keys[i] == key {
        let i = choose|i: int| 0 <= i < keys.len() && keys[i] == key;
        lemma_first_exists(keys, key, i);
    }
}

proof fn lemma_first_exists(keys: Seq<Seq<char>>, key: Seq<char>, i: int)
    requires
        0 <= i < keys.len(),
        keys[i] == key,
    ensures
        exists|k: int| is_first_of(keys, key, k),
    decreases i,
{
    if exists|j: int| 0 <= j < i && keys[j] == key {
        let j = choose|j: int| 0 <= j < i && keys[j] == key;
        lemma_first_exists(keys, key, j);
    } else {
        assert(is_first_of(keys, key, i));
    }
}

/// Finds the first entry of a name-keyed table whose key is `key`.
pub fn find_key<V>(entries: &Vec<(String, V)>, key: &str) -> (r: Option<usize>)
    ensures
        match r {
            Some(i) => lookup(keys_of(entries@), key@) == Some(i as int) && i < entries@.len(),
            None => lookup(keys_of(entries@), key@) == None::<int>,
        },
{
    let wanted = String::from_str(key);
    let ghost keys = keys_of(entries@);
    let mut i: usize = 0;
    while i < entries.len()
        invariant
            wanted@ == key@,
            keys == keys_of(entries@),
            i <= entries@.len(),
            forall|j: int| 0 <= j < i ==> keys[j] != key@,
        decreases entries@.len() - i,
    {
        if entries[i].0 == wanted {
            proof {
                lemma_lookup_first(keys, key@, i as int);
            }
            return Some(i);
        }
        i = i + 1;
    }
    proof {
        lemma_lookup_found(keys, key@);
    }
    None
}

} // verus!
