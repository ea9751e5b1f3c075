# coconut

Threshold issuance of anonymous credentials over the BLS12-381 curve, verified with Verus.

A number of authorities each hold a share of a signing key. A user asks them to sign attributes
that they do not see, decrypts the answers, puts those of enough authorities together to one
signature, and shows it to a verifier without showing the attributes or the signature.

## Course of a credential

1. `Parameters::new` hashes a generator for each attribute.
2. `ttp_keygen` deals the keys of the authorities, `aggregate_keys` makes one verification key of
   theirs.
3. `elgamal_keygen` and `prepare_blind_sign` make the user's key and request.
4. `blind_sign` checks the request and signs it, or refuses it.
5. `unblind` decrypts an answer, `aggregate_credential` puts the answers together.
6. `prove_credential` shows the result, `verify_credential` accepts or refuses it.

## Layout

- `field`, `units`, `certificate`: arithmetic modulo the order of the groups, and the proof that
  the order is prime.
- `interpolation`, `polynomial`: shares of a secret and the weights that put them together.
- `curve`, `digest`, `random`: what the library takes on trust from `bls12_381`, `sha2` and
  `rand`.
- `group`, `hashing`, `parameters`, `types`: points, hashing, parameters, and the model of every
  message.
- `keys`, `elgamal`, `proofs`, `credential`: the scheme.
- `laws`: what holds of the scheme as a whole. `law_credential_accepted` states the course above
  for every choice of random numbers.
- `app`: any generator of the `rand` crate as a source of random numbers.

## Model

A scalar is modelled by its value, and a point by the multiple of the generator that it is. The
contracts are equations between these. Points that are not in the groups can only come from the
unchecked functions of `bls12_381`; what the operations make of them is left open, and
`try_verify_credential` tells them apart before it computes a pairing.

Searches that could run out of candidates, and draws from a source that could go on handing out
useless bytes, return an `Option`.
