# policy_rules

Evaluates the typed `[[rules]]` entries of a policy against a raw command line,
and proves what it decides.

The first rule whose pattern matches the tokens of the command's first logical
segment decides. Its `when` clause may replace its decision, where an environment
variable holds a stated value. A compound command is never approved without a
prompt.

| Path | Holds |
| --- | --- |
| `src/types.rs` | rules, decisions and results |
| `src/decision.rs` | the decision that one matched rule leads to |
| `src/evaluate.rs` | the walk over a rule list for one command |
| `src/laws.rs` | what holds of every evaluation |
| `app/lib.rs` | the evaluation with the shell parser, the pattern matcher and the process environment |

The library takes the shell parser, the pattern matcher and the environment as
functions and assumes nothing of what they reply.
