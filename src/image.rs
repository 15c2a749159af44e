use vstd::prelude::*;

verus! {

/// Pixels per layer: 25 wide, 6 high.
pub const LAYER_SIZE: usize = 150;

/// How many times `v` occurs among the first `n` values of `s`.
pub open spec fn count_of(s: Seq<u8>, v: u8, n: int) -> nat
    decreases n,
{
    if n <= 0 {
        0
    } else {
        count_of(s, v, n - 1) + if s[n - 1] == v {
            1nat
        } else {
            0nat
        }
    }
}

/// The digits of layer `k`: the `k`-th run of `LAYER_SIZE` digits, the last
/// one possibly shorter.
pub open spec fn layer_spec(d: Seq<u8>, k: int) -> Seq<u8> {
    let lo = LAYER_SIZE * k;
    let hi = LAYER_SIZE * (k + 1);
    d.subrange(lo, if hi < d.len() { hi } else { d.len() as int })
}

/// An image received as layers of digits.
pub struct Image {
    layers: Vec<Vec<u8>>,
}

impl Image {
    pub closed spec fn layers_view(&self) -> Seq<Seq<u8>> {
        self.layers@.map_values(|l: Vec<u8>| l@)
    }

    /// Cuts `digits` into layers; there is always at least one.
    pub fn new(digits: &[u8]) -> (img: Image)
        ensures
            img.layers_view().len() >= 1,
            forall|k: int|
                0 <= k < img.layers_view().len() ==> #[trigger] img.layers_view()[k].len()
                    <= LAYER_SIZE,
            LAYER_SIZE * img.layers_view().len() >= digits@.len(),
            img.layers_view().len() == 1 || LAYER_SIZE * (img.layers_view().len() - 1)
                < digits@.len(),
            forall|k: int|
                0 <= k < img.layers_view().len() ==> #[trigger] img.layers_view()[k]
                    == layer_spec(digits@, k),
    {
        let n = digits.len();
        let mut layers: Vec<Vec<u8>> = Vec::new();
        let mut base: usize = 0;
        loop
            invariant_except_break
                base == LAYER_SIZE * layers@.len(),
                base < n || (base == 0 && n == 0),
            invariant
                n == digits@.len(),
                forall|k: int|
                    0 <= k < layers@.len() ==> #[trigger] layers@[k]@ == layer_spec(digits@, k),
            ensures
                layers@.len() >= 1,
                LAYER_SIZE * layers@.len() >= n,
                layers@.len() == 1 || LAYER_SIZE * (layers@.len() - 1) < n,
                forall|k: int|
                    0 <= k < layers@.len() ==> #[trigger] layers@[k]@ == layer_spec(digits@, k),
            decreases n - base,
        {
            let end: usize = if n - base > LAYER_SIZE {
                base + LAYER_SIZE
            } else {
                n
            };
            let mut layer: Vec<u8> = Vec::new();
            let mut i: usize = base;
            while i < end
                invariant
                    base <= i <= end <= n,
                    n == digits@.len(),
                    layer@ == digits@.subrange(base as int, i as int),
                decreases end - i,
            {
                layer.push(digits[i]);
                i = i + 1;
                assert(layer@ =~= digits@.subrange(base as int, i as int));
            }
            assert(layer@ == layer_spec(digits@, layers@.len() as int));
            let ghost before = layers@;
            layers.push(layer);
            assert(forall|k: int| 0 <= k < before.len() ==> layers@[k] == before[k]);
            if end >= n {
                break;
            }
            base = end;
        }
        let img = Image { layers };
        assert(img.layers_view().len() == img.layers@.len());
        assert forall|k: int| 0 <= k < img.layers_view().len() implies #[trigger] img.layers_view()[k]
            == layer_spec(digits@, k) by {
            assert(img.layers@[k]@ == layer_spec(digits@, k));
        }
        img
    }

    /// For each layer, how many 0, 1 and 2 digits it holds.
    pub fn calculate_distributions(&self) -> (r: Vec<(u32, u32, u32)>)
        requires
            forall|k: int|
                0 <= k < self.layers_view().len() ==> #[trigger] self.layers_view()[k].len()
                    <= LAYER_SIZE,
        ensures
            r@.len() == self.layers_view().len(),
            forall|k: int|
                0 <= k < r@.len() ==> {
                    let l = #[trigger] self.layers_view()[k];
                    r@[k] == (
                        count_of(l, 0, l.len() as int) as u32,
                        count_of(l, 1, l.len() as int) as u32,
                        count_of(l, 2, l.len() as int) as u32,
                    )
                },
    {
        let mut distributions: Vec<(u32, u32, u32)> = Vec::new();
        assert forall|x: int| 0 <= x < self.layers@.len() implies #[trigger] self.layers@[x]@.len()
            <= LAYER_SIZE by {
            assert(self.layers_view()[x] == self.layers@[x]@);
        }
        let mut k: usize = 0;
        while k < self.layers.len()
            invariant
                k <= self.layers@.len(),
                forall|x: int|
                    0 <= x < self.layers@.len() ==> #[trigger] self.layers@[x]@.len() <= LAYER_SIZE,
                distributions@.len() == k,
                forall|x: int|
                    0 <= x < k ==> {
                        let l = #[trigger] self.layers@[x]@;
                        distributions@[x] == (
                            count_of(l, 0, l.len() as int) as u32,
                            count_of(l, 1, l.len() as int) as u32,
                            count_of(l, 2, l.len() as int) as u32,
                        )
                    },
            decreases self.layers@.len() - k,
        {
            let layer = &self.layers[k];
            assert(self.layers@[k as int]@.len() <= LAYER_SIZE);
            let mut zeros: u32 = 0;
            let mut ones: u32 = 0;
            let mut twos: u32 = 0;
            let mut i: usize = 0;
            while i < layer.len()
                invariant
                    i <= layer@.len(),
                    layer@.len() <= u32::MAX,
                    zeros == count_of(layer@, 0, i as int),
                    ones == count_of(layer@, 1, i as int),
                    twos == count_of(layer@, 2, i as int),
                    zeros <= i && ones <= i && twos <= i,
                decreases layer@.len() - i,
            {
                let d = layer[i];
                if d == 0 {
                    zeros = zeros + 1;
                } else if d == 1 {
                    ones = ones + 1;
                } else if d == 2 {
                    twos = twos + 1;
                }
                i = i + 1;
            }
            distributions.push((zeros, ones, twos));
            k = k + 1;
        }
        distributions
    }
}

} // verus!
