# transformer

The pieces of a small Transformer pipeline (translation dataset, token
embedding, multi-head attention with and without a causal mask, cross
attention, feed-forward block, rotary positional encoding, and a one-layer
ReLU network) split in two:

- `src/` is the verified library: the dataset loader's decisions and file
  naming, Unicode whitespace trimming, and every integer rule of the layers
  (size checks, head splitting and joining, the causal mask pattern, token-id
  checks, rotary coordinate pairing, matrix shape checks), each with its
  contract and the laws that relate them.
- `app/` is the program around it: file reading, the Burn tensor layers and
  all floating-point arithmetic, which call the library for those decisions.
