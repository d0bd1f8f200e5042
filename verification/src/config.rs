use vstd::prelude::*;

verus! {

/// The `[path8]` section of the relayer configuration.
#[derive(Debug)]
pub struct Path8Config {
    /// Whether approval tokens are enforced at all.
    pub enabled: bool,
    /// Name of the environment variable that holds the HMAC secret.
    pub hmac_secret_env: String,
    /// RPC methods that require an approval token.
    pub required_for_methods: Vec<String>,
    /// Redis URL of the one-shot JTI store.
    pub redis_url: Option<String>,
    /// Prefix of the JTI keys in the store.
    pub jti_key_prefix: String,
}

impl Path8Config {
    /// `method` needs an approval token: enforcement is on and the method is
    /// listed.
    pub open spec fn method_required(&self, method: Seq<char>) -> bool {
        &&& self.enabled
        &&& exists|k: int|
            0 <= k < self.required_for_methods@.len()
                && #[trigger] self.required_for_methods@[k]@ == method
    }

    /// Whether `method` needs an approval token.
    pub fn requires_method(&self, method: &str) -> (r: bool)
        ensures
            r == self.method_required(method@),
    {
        if !self.enabled {
            return false;
        }
        let n = self.required_for_methods.len();
        let mut i: usize = 0;
        while i < n
            invariant
                self.enabled,
                n == self.required_for_methods@.len(),
                i <= n,
                forall|k: int| 0 <= k < i ==> #[trigger] self.required_for_methods@[k]@ != method@,
            decreases n - i,
        {
            if str_eq(self.required_for_methods[i].as_str(), method) {
                assert(self.required_for_methods@[i as int]@ == method@);
                return true;
            }
            i = i + 1;
        }
        false
    }
}

impl Default for Path8Config {
    fn default() -> (c: Self)
        ensures
            !c.enabled,
            c.hmac_secret_env@ == Seq::<char>::empty(),
            c.required_for_methods@.len() == 0,
            c.redis_url is None,
            c.jti_key_prefix@ == Seq::<char>::empty(),
    {
        Path8Config {
            enabled: false,
            hmac_secret_env: String::new(),
            required_for_methods: Vec::new(),
            redis_url: None,
            jti_key_prefix: String::new(),
        }
    }
}

/// Character-wise equality of two strings.
pub fn str_eq(a: &str, b: &str) -> (r: bool)
    ensures
        r == (a@ == b@),
{
    let n = a.unicode_len();
    let m = b.unicode_len();
    if n != m {
        return false;
    }
    let mut i: usize = 0;
    while i < n
        invariant
            n == a@.len(),
            m == b@.len(),
            n == m,
            i <= n,
            forall|k: int| 0 <= k < i ==> a@[k] == b@[k],
        decreases n - i,
    {
        if a.get_char(i) != b.get_char(i) {
            return false;
        }
        i = i + 1;
    }
    proof {
        assert(a@ =~= b@);
    }
    true
}

} // verus!
