# Aurora

A conversational agent, in Portuguese, whose cognition is explicit and
auditable: it learns facts stated as `chave = valor` or `x é y`, revises its
beliefs and logs each revision, chains two beliefs into an inference, notices
the topics of a conversation and how they co-occur, asks about what it does
not know, consolidates its memory every third turn, and keeps a mood that
colours its answers.

The library in `src/` is verified with Verus:

- `binario` — single-precision arithmetic held exactly: numbers as integer
  counts of 2^-64, sums, products and quotients rounded to the nearest
  single-precision value (ties to even), with the laws the rest relies on.
- `texto` — keys and terms: lower-casing, trimming, splitting into words,
  the terms worth remembering, substring search, decimal numerals.
- `similaridade` — the Jaccard similarity of two texts over their terms (the
  shared and total counts, and their single-precision quotient), and the
  score of a belief for a query.
- `dicionario` — association lists keyed by text, with their read/write laws.
- `memoria` — episodes, beliefs, revisions, concept counts, co-occurrences,
  reflections, gaps in knowledge, the user's profile.
- `emocao` — the mood and its tone.
- `agente` — commands and conversation: what the agent answers and how its
  state changes. Saving and reloading the memory are asked for, not done.
  It also decides what each console line asks of the session: `sair` (in
  any ASCII case, around white space) ends it, an empty line gets an
  invitation, anything else is a message.
- `leis` — the properties proved of the whole: what is taught is recalled,
  revisions are logged, confidence stays bounded, keys stay distinct, the
  lists of gaps and reflections stay bounded, the mood stays in range,
  offensive requests are refused in safe mode, recalled beliefs and episodes
  are the best scored ones, similarity is symmetric, between 0 and 1, and 1
  for a text with itself.

Mood, confidence, similarity and scores are single-precision numbers. The
library holds each as an integer count of 2^-64 (a confidence of 0.56 is the
count for the single-precision 0.56) and rounds every sum, product and
quotient exactly as single precision does, so that the values, the
thresholds they are compared with and the two decimals shown are those of
single-precision arithmetic. Magnitudes are held up to 2^34; larger ones are
brought to that bound.

The program in `app/` is ordinary Rust that Verus does not see, and nothing
said of it here is verified. It reads lines from the console, asks the
library what each one means, prints the answers, and keeps the memory in
`./.aurora_memoria.json`, where these numbers are written as single-precision
values. When it reads the file it converts each number to counts of 2^-64;
the conversion is exact for multiples of 2^-64 up to 2^34 in magnitude, which
every number the agent itself writes is.
