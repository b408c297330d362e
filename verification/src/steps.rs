//! Carrying out one step of a plan.

use crate::actionrun::{action_for, intent_action, view_action, Action, ActionView};
use crate::actionwords::literal_action;
use crate::classifier::possible_inference;
use crate::intent::IntentView;
use crate::parser::parse_action_intent;
use crate::text::{
    after_prefix, all_space, glue, is_bare, is_blank, rest_is_kept, same, strip_prefix, trim,
    trimmed, trimming_keeps_the_rest, view_all,
};
use vstd::prelude::*;

verus! {

/// What a step of a plan comes down to.
#[derive(Debug, Clone, PartialEq, Eq)]
pub enum StepCommand {
    /// Make what a recipe makes.
    Recipe(String),
    /// Run a command in the terminal.
    Terminal(String),
    /// Carry out an action.
    Act(Action),
    /// Nothing: the step is left to the user, and this is the reply.
    Manual(String),
}

/// What a `StepCommand` says.
#[verifier::ext_equal]
pub ghost enum StepView {
    Recipe(Seq<char>),
    Terminal(Seq<char>),
    Act(ActionView),
    Manual(Seq<char>),
}

impl View for StepCommand {
    type V = StepView;

    open spec fn view(&self) -> StepView {
        match *self {
            StepCommand::Recipe(id) => StepView::Recipe(id@),
            StepCommand::Terminal(command) => StepView::Terminal(command@),
            StepCommand::Act(action) => StepView::Act(action@),
            StepCommand::Manual(reply) => StepView::Manual(reply@),
        }
    }
}

/// What a step says outright: a recipe or a terminal command.
pub open spec fn outright_step(step: Seq<char>) -> Option<StepView> {
    if after_prefix(step, "@recipe:"@) is Some {
        Some(StepView::Recipe(trim(after_prefix(step, "@recipe:"@)->0)))
    } else if after_prefix(step, "/terminal "@) is Some && !is_blank(
        after_prefix(step, "/terminal "@)->0,
    ) {
        Some(StepView::Terminal(trim(after_prefix(step, "/terminal "@)->0)))
    } else {
        None
    }
}

/// What a step comes down to, given the action that its text stands for.
pub open spec fn step_of(step: Seq<char>, action: Option<ActionView>) -> StepView {
    match outright_step(step) {
        Some(command) => command,
        None => match action {
            Some(a) => StepView::Act(a),
            None => StepView::Manual("▸ "@ + step + "（需要人工操作）"@),
        },
    }
}

fn read_outright_step(step: &str) -> (r: Option<StepCommand>)
    ensures
        match r {
            Some(c) => outright_step(step@) == Some(c@),
            None => outright_step(step@) is None,
        },
{
    match strip_prefix(step, "@recipe:") {
        Some(id) => {
            return Some(StepCommand::Recipe(trimmed(id).to_owned()));
        },
        None => {},
    }
    match strip_prefix(step, "/terminal ") {
        Some(rest) => {
            let command = trimmed(rest);
            if command.is_empty() {
                None
            } else {
                Some(StepCommand::Terminal(command.to_owned()))
            }
        },
        None => None,
    }
}

/// What a step comes down to, given the action that its text stands for.
pub fn plan_step_given(step: &str, action: Option<Action>) -> (r: StepCommand)
    ensures
        r@ == step_of(step@, view_action(action)),
{
    match read_outright_step(step) {
        Some(command) => command,
        None => match action {
            Some(a) => StepCommand::Act(a),
            None => {
                let mut out = glue("▸ ", step);
                out.append("（需要人工操作）");
                StepCommand::Manual(out)
            },
        },
    }
}

/// Whether a text can stand for an action: for the one that it names, or else for what
/// the classifier can make of it.
pub open spec fn possible_action(text: Seq<char>, action: Option<ActionView>) -> bool {
    match literal_action(text) {
        Some(i) => action == action_for(i),
        None => exists|inferred: Option<IntentView>| #[trigger]
            possible_inference(text, inferred) && action == match inferred {
                Some(i) => action_for(i),
                None => None,
            },
    }
}

/// The action that a text stands for.
pub fn text_action(text: &str) -> (r: Option<Action>)
    ensures
        possible_action(text@, view_action(r)),
{
    match parse_action_intent(text) {
        Some(intent) => {
            let ghost i = intent@;
            let action = intent_action(intent);
            proof {
                if literal_action(text@) is None {
                    assert(possible_inference(text@, Some(i)));
                }
            }
            action
        },
        None => None,
    }
}

/// What a step comes down to. The classifier is asked only about a step that says
/// nothing outright.
pub fn execute_plan_step(step: &str) -> (r: StepCommand)
    ensures
        outright_step(step@) is Some ==> r@ == outright_step(step@)->0,
        outright_step(step@) is None ==> exists|action: Option<ActionView>| #[trigger]
            possible_action(step@, action) && r@ == step_of(step@, action),
{
    match read_outright_step(step) {
        Some(command) => command,
        None => {
            let action = text_action(step);
            let ghost a = view_action(action);
            assert(possible_action(step@, a));
            plan_step_given(step, action)
        },
    }
}

// ---------------------------------------------------------------------------
// Recipes
// ---------------------------------------------------------------------------

pub const SNAKE_README: &'static str = r#"# Snake Game (pygame)

## Run

1. Create venv (optional)
2. Install dependencies

```bash
pip install -r requirements.txt
python main.py
```

## Controls

- Arrow keys: move
- R: restart after game over
- Q: quit

This is a lightweight starter project generated by HarborBeacon recipe.
"#;

pub const SNAKE_REQUIREMENTS: &'static str = "pygame>=2.5.0\n";

pub const SNAKE_MAIN: &'static str = r#"import random
import sys

import pygame


CELL = 20
GRID_W = 30
GRID_H = 20
WIDTH = GRID_W * CELL
HEIGHT = GRID_H * CELL
FPS = 12

BLACK = (20, 20, 20)
GREEN = (60, 180, 75)
RED = (230, 80, 80)
WHITE = (245, 245, 245)


def random_food(snake):
    while True:
        p = (random.randint(0, GRID_W - 1), random.randint(0, GRID_H - 1))
        if p not in snake:
            return p


def draw_cell(surface, pos, color):
    x, y = pos
    rect = pygame.Rect(x * CELL, y * CELL, CELL - 1, CELL - 1)
    pygame.draw.rect(surface, color, rect)


def run():
    pygame.init()
    screen = pygame.display.set_mode((WIDTH, HEIGHT))
    pygame.display.set_caption("Snake")
    clock = pygame.time.Clock()
    font = pygame.font.SysFont(None, 28)

    snake = [(GRID_W // 2, GRID_H // 2)]
    direction = (1, 0)
    pending_dir = direction
    food = random_food(snake)
    score = 0
    game_over = False

    while True:
        for event in pygame.event.get():
            if event.type == pygame.QUIT:
                pygame.quit()
                sys.exit(0)
            if event.type == pygame.KEYDOWN:
                if event.key == pygame.K_q:
                    pygame.quit()
                    sys.exit(0)
                if game_over and event.key == pygame.K_r:
                    snake = [(GRID_W // 2, GRID_H // 2)]
                    direction = (1, 0)
                    pending_dir = direction
                    food = random_food(snake)
                    score = 0
                    game_over = False
                if event.key == pygame.K_UP and direction != (0, 1):
                    pending_dir = (0, -1)
                elif event.key == pygame.K_DOWN and direction != (0, -1):
                    pending_dir = (0, 1)
                elif event.key == pygame.K_LEFT and direction != (1, 0):
                    pending_dir = (-1, 0)
                elif event.key == pygame.K_RIGHT and direction != (-1, 0):
                    pending_dir = (1, 0)

        if not game_over:
            direction = pending_dir
            hx, hy = snake[0]
            nx, ny = hx + direction[0], hy + direction[1]

            # Wall or self collision ends game.
            if nx < 0 or nx >= GRID_W or ny < 0 or ny >= GRID_H or (nx, ny) in snake:
                game_over = True
            else:
                snake.insert(0, (nx, ny))
                if (nx, ny) == food:
                    score += 1
                    food = random_food(snake)
                else:
                    snake.pop()

        screen.fill(BLACK)
        for s in snake:
            draw_cell(screen, s, GREEN)
        draw_cell(screen, food, RED)

        score_text = font.render(f"Score: {score}", True, WHITE)
        screen.blit(score_text, (8, 8))

        if game_over:
            msg = font.render("Game Over - Press R to restart, Q to quit", True, WHITE)
            rect = msg.get_rect(center=(WIDTH // 2, HEIGHT // 2))
            screen.blit(msg, rect)

        pygame.display.flip()
        clock.tick(FPS)


if __name__ == "__main__":
    run()
"#;

/// A directory of the workspace to make, and the files to put there.
#[derive(Debug, Clone, PartialEq, Eq)]
pub struct Recipe {
    /// The components of the directory, below the workspace.
    pub dir: Vec<String>,
    /// The name and the content of each file, in the order in which they are written.
    pub files: Vec<(String, String)>,
}

/// What a `Recipe` says.
#[verifier::ext_equal]
pub ghost struct RecipeView {
    pub dir: Seq<Seq<char>>,
    pub files: Seq<(Seq<char>, Seq<char>)>,
}

impl View for Recipe {
    type V = RecipeView;

    open spec fn view(&self) -> RecipeView {
        RecipeView {
            dir: view_all(self.dir@),
            files: self.files@.map_values(|f: (String, String)| (f.0@, f.1@)),
        }
    }
}

/// The recipe of a snake game.
pub open spec fn snake_recipe() -> RecipeView {
    RecipeView {
        dir: seq!["examples"@, "snake-game"@],
        files: seq![
            ("README.md"@, SNAKE_README@),
            ("requirements.txt"@, SNAKE_REQUIREMENTS@),
            ("main.py"@, SNAKE_MAIN@),
        ],
    }
}

/// The recipe with an id, or the reply that there is none.
pub open spec fn recipe_of(id: Seq<char>) -> Result<RecipeView, Seq<char>> {
    if id == "snake_python_bootstrap"@ {
        Ok(snake_recipe())
    } else {
        Err("Unknown recipe: "@ + id)
    }
}

/// The recipe with the id `id`, or the reply that there is none.
pub fn find_recipe(id: &str) -> (r: Result<Recipe, String>)
    ensures
        match r {
            Ok(recipe) => recipe_of(id@) == Ok::<RecipeView, Seq<char>>(recipe@),
            Err(e) => recipe_of(id@) == Err::<RecipeView, Seq<char>>(e@),
        },
{
    if !same(id, "snake_python_bootstrap") {
        return Err(glue("Unknown recipe: ", id));
    }
    let dir: Vec<String> = vec!["examples".to_owned(), "snake-game".to_owned()];
    let files: Vec<(String, String)> = vec![
        ("README.md".to_owned(), SNAKE_README.to_owned()),
        ("requirements.txt".to_owned(), SNAKE_REQUIREMENTS.to_owned()),
        ("main.py".to_owned(), SNAKE_MAIN.to_owned()),
    ];
    let recipe = Recipe { dir, files };
    proof {
        assert(recipe@.dir =~= snake_recipe().dir);
        assert(recipe@.files =~= snake_recipe().files);
    }
    Ok(recipe)
}

/// What came of carrying out a recipe.
#[derive(Debug, Clone, PartialEq, Eq)]
pub enum RecipeRun {
    NoDirectory(String),
    NotWritten(String),
    Made,
}

/// The reply about a recipe.
pub open spec fn recipe_reply(run: RecipeRun) -> Seq<char> {
    match run {
        RecipeRun::NoDirectory(e) => "Recipe failed: cannot create directory: "@ + e@,
        RecipeRun::NotWritten(e) => "Recipe failed: "@ + e@,
        RecipeRun::Made => "✅ 已生成示例项目：examples/snake-game\n- main.py\n- requirements.txt\n- README.md"@,
    }
}

/// The reply about a recipe, given what came of it.
pub fn execute_recipe(run: &RecipeRun) -> (r: String)
    ensures
        r@ == recipe_reply(*run),
{
    match run {
        RecipeRun::NoDirectory(e) => glue(
            "Recipe failed: cannot create directory: ",
            e.as_str(),
        ),
        RecipeRun::NotWritten(e) => glue("Recipe failed: ", e.as_str()),
        RecipeRun::Made => "✅ 已生成示例项目：examples/snake-game\n- main.py\n- requirements.txt\n- README.md".to_owned(),
    }
}

// ---------------------------------------------------------------------------
// Laws
// ---------------------------------------------------------------------------

/// A step that names a recipe or a terminal command is that, without the white space
/// round it, whatever its text would stand for otherwise.
pub proof fn outright_step_is_taken_at_its_word(
    lead: Seq<char>,
    s: Seq<char>,
    tail: Seq<char>,
    action: Option<ActionView>,
)
    requires
        all_space(lead),
        is_bare(s),
        all_space(tail),
    ensures
        step_of("@recipe:"@ + (lead + s + tail), action) == StepView::Recipe(s),
        step_of("/terminal "@ + (lead + s + tail), action) == StepView::Terminal(s),
{
    reveal_strlit("@recipe:");
    reveal_strlit("/terminal ");
    let rest = lead + s + tail;
    trimming_keeps_the_rest(lead, s, tail);
    rest_is_kept(rest, "@recipe:"@);
    rest_is_kept(rest, "/terminal "@);
    let text = "/terminal "@ + rest;
    if "@recipe:"@.is_prefix_of(text) {
        assert("@recipe:"@[0] == text[0]);
        assert(text[0] == "/terminal "@[0]);
    }
}

/// Any other step is the action that its text stands for, and is left to the user where
/// it stands for none.
pub proof fn other_step_is_its_action(step: Seq<char>, action: ActionView)
    requires
        !("@recipe:"@).is_prefix_of(step),
        !("/terminal "@).is_prefix_of(step),
    ensures
        step_of(step, Some(action)) == StepView::Act(action),
        step_of(step, None) == StepView::Manual("▸ "@ + step + "（需要人工操作）"@),
{
}

/// The one recipe makes three files in its directory; any other id is answered with its
/// name.
pub proof fn recipe_is_found_by_id(id: Seq<char>)
    ensures
        id != "snake_python_bootstrap"@ ==> recipe_of(id) == Err::<RecipeView, _>(
            "Unknown recipe: "@ + id,
        ),
        recipe_of("snake_python_bootstrap"@) matches Ok(recipe) && recipe.dir == seq![
            "examples"@,
            "snake-game"@,
        ] && recipe.files.len() == 3 && recipe.files[0].0 == "README.md"@ && recipe.files[1].0
            == "requirements.txt"@ && recipe.files[2].0 == "main.py"@,
{
}

/// The reply about a recipe says what came of it; a failure is told with its reason at the
/// end.
pub proof fn recipe_says_what_came_of_it(run: RecipeRun)
    ensures
        run matches RecipeRun::NoDirectory(e) ==> recipe_reply(run)
            == "Recipe failed: cannot create directory: "@ + e@,
        run matches RecipeRun::NotWritten(e) ==> recipe_reply(run) == "Recipe failed: "@ + e@,
        run is Made ==> recipe_reply(run)
            == "✅ 已生成示例项目：examples/snake-game\n- main.py\n- requirements.txt\n- README.md"@,
{
}

} // verus!
