//! The identity directory: which session token stands for which username.
//! A token maps back to one username, and a username holds one token, from
//! the moment the token is issued until either is issued again.

use vstd::prelude::*;

verus! {

/// Mathematical value of one binding.
#[verifier::ext_equal]
pub struct BindingView {
    pub username: Seq<char>,
    pub token: Seq<char>,
}

/// Whether `token` stands for some username.
pub open spec fn token_is_bound(bindings: Seq<BindingView>, token: Seq<char>) -> bool {
    exists|i: int| 0 <= i < bindings.len() && (#[trigger] bindings[i]).token == token
}

/// The username that `token` stands for, if it is bound.
pub open spec fn identity_of(bindings: Seq<BindingView>, token: Seq<char>) -> Seq<char> {
    bindings[choose|i: int| 0 <= i < bindings.len() && (#[trigger] bindings[i]).token == token].username
}

/// No token stands for two usernames and no username holds two tokens.
pub open spec fn consistent(bindings: Seq<BindingView>) -> bool {
    forall|i: int, j: int|
        0 <= i < j < bindings.len() ==> (#[trigger] bindings[i]).token != (
        #[trigger] bindings[j]).token && bindings[i].username != bindings[j].username
}

/// The bindings that share neither the username nor the token.
pub open spec fn unrelated_to(username: Seq<char>, token: Seq<char>) -> spec_fn(
    BindingView,
) -> bool {
    |binding: BindingView| binding.username != username && binding.token != token
}

/// The directory after `token` was issued to `username`: what the username
/// held before and what the token stood for before are gone, the other
/// bindings keep their order, and the new binding stands last.
pub open spec fn after_issue(
    bindings: Seq<BindingView>,
    username: Seq<char>,
    token: Seq<char>,
) -> Seq<BindingView> {
    bindings.filter(unrelated_to(username, token)).push(BindingView { username, token })
}

/// The token that the server mints for `username`.
pub open spec fn minted_token(username: Seq<char>) -> Seq<char> {
    "token_"@ + username
}

/// Mints the token for `username`.
pub fn mint_token(username: &String) -> (token: String)
    ensures
        token@ == minted_token(username@),
{
    String::from_str("token_").concat(username.as_str())
}

struct Binding {
    username: String,
    token: String,
}

impl DeepView for Binding {
    type V = BindingView;

    closed spec fn deep_view(&self) -> BindingView {
        BindingView { username: self.username@, token: self.token@ }
    }
}

/// The tokens issued so far and the usernames they stand for.
pub struct IdentityDirectory {
    bindings: Vec<Binding>,
}

impl View for IdentityDirectory {
    type V = Seq<BindingView>;

    /// The bindings, oldest issue first.
    closed spec fn view(&self) -> Seq<BindingView> {
        self.bindings.deep_view()
    }
}

/// Taking one binding out of a consistent directory leaves it consistent.
proof fn lemma_remove_keeps_consistent(bindings: Seq<BindingView>, i: int)
    requires
        consistent(bindings),
        0 <= i < bindings.len(),
    ensures
        consistent(bindings.remove(i)),
{
    let rest = bindings.remove(i);
    assert forall|a: int, b: int| 0 <= a < b < rest.len() implies (#[trigger] rest[a]).token != (
    #[trigger] rest[b]).token && rest[a].username != rest[b].username by {
        let a0 = if a < i { a } else { a + 1 };
        let b0 = if b < i { b } else { b + 1 };
        assert(rest[a] == bindings[a0]);
        assert(rest[b] == bindings[b0]);
        assert(bindings[a0].token != bindings[b0].token);
    }
}

impl IdentityDirectory {
    #[verifier::type_invariant]
    spec fn valid(self) -> bool {
        consistent(self.bindings.deep_view())
    }

    /// A directory with no binding.
    pub fn new() -> (directory: IdentityDirectory)
        ensures
            directory@ == Seq::<BindingView>::empty(),
    {
        let directory = IdentityDirectory { bindings: Vec::new() };
        assert(directory.bindings.deep_view() =~= Seq::<BindingView>::empty());
        directory
    }

    /// Number of bindings.
    pub fn len(&self) -> (len: usize)
        ensures
            len == self@.len(),
            consistent(self@),
    {
        proof {
            use_type_invariant(self);
        }
        self.bindings.len()
    }

    /// The username that `token` stands for.
    pub fn resolve(&self, token: &String) -> (identity: Option<String>)
        ensures
            identity is Some == token_is_bound(self@, token@),
            identity matches Some(username) ==> username@ == identity_of(self@, token@),
    {
        proof {
            use_type_invariant(self);
        }
        let ghost bindings = self.bindings.deep_view();
        let mut i: usize = 0;
        while i < self.bindings.len()
            invariant
                i <= self.bindings@.len(),
                bindings == self.bindings.deep_view(),
                consistent(bindings),
                forall|j: int| 0 <= j < i ==> (#[trigger] bindings[j]).token != token@,
            decreases self.bindings@.len() - i,
        {
            if self.bindings[i].token == *token {
                proof {
                    assert(bindings[i as int].token == token@);
                    let p = choose|p: int|
                        0 <= p < bindings.len() && (#[trigger] bindings[p]).token == token@;
                    if p < i {
                        assert(bindings[p].token != bindings[i as int].token);
                    } else if i < p {
                        assert(bindings[i as int].token != bindings[p].token);
                    }
                }
                return Some(self.bindings[i].username.clone());
            }
            i += 1;
        }
        None
    }

    /// Issues `token` to `username`. The token that the username held
    /// before no longer stands for it, and the token no longer stands for
    /// whom it stood for before.
    pub fn issue(&mut self, username: String, token: String)
        ensures
            final(self)@ == after_issue(old(self)@, username@, token@),
    {
        proof {
            use_type_invariant(&*self);
        }
        let ghost before = self.bindings.deep_view();
        let ghost keep = unrelated_to(username@, token@);
        let mut bindings: Vec<Binding> = Vec::new();
        std::mem::swap(&mut bindings, &mut self.bindings);
        let mut i: usize = 0;
        let ghost mut done: int = 0;
        proof {
            reveal(Seq::filter);
            assert(before.take(0) =~= Seq::<BindingView>::empty());
            assert(bindings.deep_view().take(0) =~= Seq::<BindingView>::empty());
            assert(Seq::<BindingView>::empty().filter(keep) =~= Seq::<BindingView>::empty());
            assert(bindings.deep_view().skip(0) =~= before.skip(0));
        }
        while i < bindings.len()
            invariant
                keep == unrelated_to(username@, token@),
                0 <= done <= before.len(),
                i <= bindings@.len(),
                bindings@.len() - i == before.len() - done,
                consistent(bindings.deep_view()),
                bindings.deep_view().take(i as int) == before.take(done).filter(keep),
                bindings.deep_view().skip(i as int) == before.skip(done),
                forall|j: int| 0 <= j < i ==> keep(#[trigger] bindings.deep_view()[j]),
            decreases bindings@.len() - i,
        {
            let ghost current = bindings.deep_view();
            proof {
                assert(current.skip(i as int)[0] == before.skip(done)[0]);
                assert(current[i as int] == before[done]);
                before.take(done).lemma_filter_push(before[done], keep);
                assert(before.take(done + 1) =~= before.take(done).push(before[done]));
            }
            if bindings[i].username == username || bindings[i].token == token {
                bindings.remove(i);
                proof {
                    let now = bindings.deep_view();
                    assert(now =~= current.remove(i as int));
                    lemma_remove_keeps_consistent(current, i as int);
                    assert(now.take(i as int) =~= current.take(i as int));
                    let rest = now.skip(i as int);
                    let wanted = before.skip(done + 1);
                    assert forall|j: int| 0 <= j < rest.len() implies #[trigger] rest[j]
                        == wanted[j] by {
                        assert(now[i + j] == current[i + j + 1]);
                        assert(current.skip(i as int)[j + 1] == before.skip(done)[j + 1]);
                    }
                    assert(rest =~= wanted);
                    assert forall|j: int| 0 <= j < i implies keep(
                        #[trigger] bindings.deep_view()[j],
                    ) by {
                        assert(now[j] == current[j]);
                    }
                    done = done + 1;
                }
            } else {
                proof {
                    assert(current.take(i + 1) =~= current.take(i as int).push(current[i as int]));
                    let rest = current.skip(i + 1);
                    let wanted = before.skip(done + 1);
                    assert forall|j: int| 0 <= j < rest.len() implies #[trigger] rest[j]
                        == wanted[j] by {
                        assert(current.skip(i as int)[j + 1] == before.skip(done)[j + 1]);
                    }
                    assert(rest =~= wanted);
                    done = done + 1;
                }
                i += 1;
            }
        }
        let ghost kept = bindings.deep_view();
        bindings.push(Binding { username, token });
        proof {
            let entry = BindingView { username: username@, token: token@ };
            let now = bindings.deep_view();
            assert(before.take(done) =~= before);
            assert(kept.take(i as int) =~= kept);
            assert(now =~= kept.push(entry));
            assert forall|a: int, b: int| 0 <= a < b < now.len() implies (#[trigger] now[a]).token
                != (#[trigger] now[b]).token && now[a].username != now[b].username by {
                assert(now[a] == kept[a]);
                if b == kept.len() {
                    assert(keep(kept[a]));
                } else {
                    assert(now[b] == kept[b]);
                    assert(kept[a].token != kept[b].token);
                }
            }
        }
        self.bindings = bindings;
    }
}

/// A token that was just issued stands for the username it was issued to,
/// and for no other.
pub proof fn law_issued_token_resolves(
    bindings: Seq<BindingView>,
    username: Seq<char>,
    token: Seq<char>,
)
    ensures
        token_is_bound(after_issue(bindings, username, token), token),
        identity_of(after_issue(bindings, username, token), token) == username,
{
    let kept = bindings.filter(unrelated_to(username, token));
    let out = after_issue(bindings, username, token);
    assert(out[out.len() - 1].token == token);
    let p = choose|p: int| 0 <= p < out.len() && (#[trigger] out[p]).token == token;
    if p < kept.len() {
        bindings.lemma_filter_pred(unrelated_to(username, token), p);
        assert(out[p] == kept[p]);
    }
}

/// In a consistent directory a token stands for the username of the one
/// binding that holds it.
proof fn lemma_token_names_its_binding(bindings: Seq<BindingView>, i: int)
    requires
        consistent(bindings),
        0 <= i < bindings.len(),
    ensures
        token_is_bound(bindings, bindings[i].token),
        identity_of(bindings, bindings[i].token) == bindings[i].username,
{
    let token = bindings[i].token;
    let p = choose|p: int| 0 <= p < bindings.len() && (#[trigger] bindings[p]).token == token;
    if p < i {
        assert(bindings[p].token != bindings[i].token);
    } else if i < p {
        assert(bindings[i].token != bindings[p].token);
    }
}

/// Issuing a token leaves every other token as it was, but for the one
/// that the same username held before, which stands for nobody any more.
pub proof fn law_issue_spares_other_tokens(
    bindings: Seq<BindingView>,
    username: Seq<char>,
    token: Seq<char>,
    other: Seq<char>,
)
    requires
        consistent(bindings),
        other != token,
    ensures
        token_is_bound(after_issue(bindings, username, token), other) <==> token_is_bound(
            bindings,
            other,
        ) && identity_of(bindings, other) != username,
        token_is_bound(after_issue(bindings, username, token), other) ==> identity_of(
            after_issue(bindings, username, token),
            other,
        ) == identity_of(bindings, other),
{
    let keep = unrelated_to(username, token);
    let kept = bindings.filter(keep);
    let out = after_issue(bindings, username, token);
    if token_is_bound(out, other) {
        let q = choose|q: int| 0 <= q < out.len() && (#[trigger] out[q]).token == other;
        assert(q < kept.len());
        assert(out[q] == kept[q]);
        bindings.lemma_filter_pred(keep, q);
        assert(kept.contains(kept[q]));
        bindings.lemma_filter_contains_rev(keep, kept[q]);
        let i = choose|i: int| 0 <= i < bindings.len() && bindings[i] == kept[q];
        lemma_token_names_its_binding(bindings, i);
    }
    if token_is_bound(bindings, other) && identity_of(bindings, other) != username {
        let i = choose|i: int| 0 <= i < bindings.len() && (#[trigger] bindings[i]).token == other;
        assert(keep(bindings[i]));
        bindings.lemma_filter_contains(keep, i);
        let q = choose|q: int| 0 <= q < kept.len() && kept[q] == bindings[i];
        assert(out[q] == kept[q]);
        assert(out[q].token == other);
    }
}

/// Leaving bindings out of a consistent directory leaves it consistent,
/// and what is kept was there before.
proof fn lemma_filter_keeps_consistent(bindings: Seq<BindingView>, keep: spec_fn(BindingView) -> bool)
    requires
        consistent(bindings),
    ensures
        consistent(bindings.filter(keep)),
        forall|j: int|
            0 <= j < bindings.filter(keep).len() ==> keep(#[trigger] bindings.filter(keep)[j])
                && bindings.contains(bindings.filter(keep)[j]),
    decreases bindings.len(),
{
    let kept = bindings.filter(keep);
    if bindings.len() == 0 {
        reveal(Seq::filter);
    } else {
        let earlier = bindings.drop_last();
        let last = bindings.last();
        let earlier_kept = earlier.filter(keep);
        assert(bindings =~= earlier.push(last));
        assert forall|a: int, b: int| 0 <= a < b < earlier.len() implies (#[trigger] earlier[a]).token
            != (#[trigger] earlier[b]).token && earlier[a].username != earlier[b].username by {
            assert(bindings[a].token != bindings[b].token);
        }
        lemma_filter_keeps_consistent(earlier, keep);
        earlier.lemma_filter_push(last, keep);
        assert forall|j: int| 0 <= j < kept.len() implies keep(#[trigger] kept[j])
            && bindings.contains(kept[j]) by {
            if j < earlier_kept.len() {
                assert(kept[j] == earlier_kept[j]);
                assert(earlier.contains(earlier_kept[j]));
                let i = choose|i: int| 0 <= i < earlier.len() && earlier[i] == earlier_kept[j];
                assert(bindings[i] == kept[j]);
            } else {
                assert(bindings[bindings.len() - 1] == kept[j]);
            }
        }
        assert forall|a: int, b: int| 0 <= a < b < kept.len() implies (#[trigger] kept[a]).token != (
        #[trigger] kept[b]).token && kept[a].username != kept[b].username by {
            assert(kept[a] == earlier_kept[a]);
            if b < earlier_kept.len() {
                assert(kept[b] == earlier_kept[b]);
                assert(earlier_kept[a].token != earlier_kept[b].token);
            } else {
                assert(earlier.contains(earlier_kept[a]));
                let i = choose|i: int| 0 <= i < earlier.len() && earlier[i] == earlier_kept[a];
                assert(bindings[i].token != bindings[bindings.len() - 1].token);
            }
        }
    }
}

/// Issuing a token leaves the directory consistent: still no token stands
/// for two usernames and no username holds two tokens.
pub proof fn law_issue_keeps_consistent(
    bindings: Seq<BindingView>,
    username: Seq<char>,
    token: Seq<char>,
)
    requires
        consistent(bindings),
    ensures
        consistent(after_issue(bindings, username, token)),
{
    let keep = unrelated_to(username, token);
    let kept = bindings.filter(keep);
    let out = after_issue(bindings, username, token);
    lemma_filter_keeps_consistent(bindings, keep);
    assert forall|a: int, b: int| 0 <= a < b < out.len() implies (#[trigger] out[a]).token != (
    #[trigger] out[b]).token && out[a].username != out[b].username by {
        assert(out[a] == kept[a]);
        if b < kept.len() {
            assert(out[b] == kept[b]);
            assert(kept[a].token != kept[b].token);
        } else {
            assert(keep(kept[a]));
        }
    }
}

/// Every token is the one minted for the username that holds it.
pub open spec fn all_minted(bindings: Seq<BindingView>) -> bool {
    forall|i: int|
        0 <= i < bindings.len() ==> (#[trigger] bindings[i]).token == minted_token(
            bindings[i].username,
        )
}

/// The directory after `username` logged in: its minted token was issued
/// to it.
pub open spec fn after_login(bindings: Seq<BindingView>, username: Seq<char>) -> Seq<BindingView> {
    after_issue(bindings, username, minted_token(username))
}

/// Two usernames are minted different tokens.
pub proof fn law_minted_tokens_differ(first: Seq<char>, second: Seq<char>)
    requires
        minted_token(first) == minted_token(second),
    ensures
        first == second,
{
    let prefix = "token_"@;
    assert(first.len() == second.len()) by {
        assert((prefix + first).len() == (prefix + second).len());
    }
    assert forall|i: int| 0 <= i < first.len() implies first[i] == second[i] by {
        assert((prefix + first)[prefix.len() + i] == first[i]);
        assert((prefix + second)[prefix.len() + i] == second[i]);
    }
    assert(first =~= second);
}

/// Where every token is a minted one, a login touches the entry of its
/// own username only: every other username keeps its entry, nothing else
/// is new, no other username holds the token of the login, and the
/// directory stays consistent and minted throughout.
pub proof fn law_login_spares_other_users(bindings: Seq<BindingView>, username: Seq<char>)
    requires
        consistent(bindings),
        all_minted(bindings),
    ensures
        consistent(after_login(bindings, username)),
        all_minted(after_login(bindings, username)),
        after_login(bindings, username).contains(
            BindingView { username, token: minted_token(username) },
        ),
        forall|i: int|
            0 <= i < bindings.len() && (#[trigger] bindings[i]).username != username
                ==> after_login(bindings, username).contains(bindings[i]),
        forall|j: int|
            0 <= j < after_login(bindings, username).len() && (#[trigger] after_login(
                bindings,
                username,
            )[j]).username != username ==> bindings.contains(after_login(bindings, username)[j])
                && after_login(bindings, username)[j].token != minted_token(username),
{
    let token = minted_token(username);
    let keep = unrelated_to(username, token);
    let kept = bindings.filter(keep);
    let out = after_login(bindings, username);
    law_issue_keeps_consistent(bindings, username, token);
    lemma_filter_keeps_consistent(bindings, keep);
    assert(out[out.len() - 1] == BindingView { username, token });
    assert forall|j: int| 0 <= j < out.len() implies (#[trigger] out[j]).token == minted_token(
        out[j].username,
    ) by {
        if j < kept.len() {
            assert(out[j] == kept[j]);
            assert(bindings.contains(kept[j]));
            let i = choose|i: int| 0 <= i < bindings.len() && bindings[i] == kept[j];
            assert(bindings[i].token == minted_token(bindings[i].username));
        }
    }
    assert forall|i: int|
        0 <= i < bindings.len() && (#[trigger] bindings[i]).username != username implies out.contains(
        bindings[i],
    ) by {
        if bindings[i].token == token {
            law_minted_tokens_differ(bindings[i].username, username);
        }
        assert(keep(bindings[i]));
        bindings.lemma_filter_contains(keep, i);
        let q = choose|q: int| 0 <= q < kept.len() && kept[q] == bindings[i];
        assert(out[q] == bindings[i]);
    }
    assert forall|j: int| 0 <= j < out.len() && (#[trigger] out[j]).username != username implies bindings.contains(
        out[j],
    ) && out[j].token != token by {
        assert(j < kept.len());
        assert(out[j] == kept[j]);
        assert(keep(kept[j]));
    }
}

/// The directory of a server that mints its tokens itself: every token in
/// it is the one minted for the username that holds it.
pub struct LoginDirectory {
    directory: IdentityDirectory,
}

impl View for LoginDirectory {
    type V = Seq<BindingView>;

    /// The bindings, oldest login first.
    closed spec fn view(&self) -> Seq<BindingView> {
        self.directory@
    }
}

impl LoginDirectory {
    #[verifier::type_invariant]
    spec fn minted(self) -> bool {
        all_minted(self.directory@)
    }

    /// A directory in which nobody has logged in.
    pub fn new() -> (logins: LoginDirectory)
        ensures
            logins@ == Seq::<BindingView>::empty(),
    {
        LoginDirectory { directory: IdentityDirectory::new() }
    }

    /// Number of usernames that hold a token. Whatever was done to the
    /// directory, no token stands for two usernames, no username holds
    /// two tokens, and every token is the one minted for its username.
    pub fn len(&self) -> (len: usize)
        ensures
            len == self@.len(),
            consistent(self@),
            all_minted(self@),
    {
        proof {
            use_type_invariant(self);
        }
        self.directory.len()
    }

    /// The username that `token` stands for.
    pub fn resolve(&self, token: &String) -> (identity: Option<String>)
        ensures
            identity is Some == token_is_bound(self@, token@),
            identity matches Some(username) ==> username@ == identity_of(self@, token@),
    {
        self.directory.resolve(token)
    }

    /// Logs `username` in: mints its token, issues it and hands it out.
    pub fn login(&mut self, username: String) -> (token: String)
        ensures
            token@ == minted_token(username@),
            final(self)@ == after_login(old(self)@, username@),
            consistent(final(self)@),
            all_minted(final(self)@),
    {
        proof {
            use_type_invariant(&*self);
        }
        let token = mint_token(&username);
        let mut directory = IdentityDirectory::new();
        std::mem::swap(&mut directory, &mut self.directory);
        directory.len();
        proof {
            law_login_spares_other_users(directory@, username@);
        }
        directory.issue(username, token.clone());
        self.directory = directory;
        token
    }
}

} // verus!
